//! A progressive Monte Carlo path tracer over fixed-point arithmetic.
//!
//! A scene of spheres and axis-aligned boxes with diffuse and emissive
//! materials is rendered by stochastically sampling light paths per pixel and
//! accumulating frames into a running average. All scalars are fixed-point
//! `i64` values (see [`fixed`]), so every stage of the renderer has an exact,
//! machine-checked contract, and renders are deterministic for a given seed.

pub mod cube;
pub mod fault;
pub mod fixed;
pub mod intersection;
pub mod material;
pub mod random;
pub mod ray;
pub mod sphere;
pub mod vector;
pub mod vector_pool;

use vstd::prelude::*;
use crate::cube::{cube_wf, spec_cube_intersect, spec_cube_normal, Cube, CubeV};
use crate::intersection::{spec_resolve, ClosestHit, ClosestV, HitV, Intersection};
use crate::material::{color_wf, MaterialV, EMISSION_MAX};
use crate::random::{spec_hemisphere, Random};
use crate::ray::{bounded_v3, spec_background, Ray, RayV, COORD_MAX, HALF};
use crate::sphere::{sphere_wf, spec_sphere_intersect, spec_sphere_normal, Sphere, SphereV};
use crate::fixed::SCALE;
use crate::vector::{v3_add, v3_mul_ew, v3_scale, v3_zero, Vec3, Vector};

verus! {

/// Largest depth of the bounce loop, a machine limit that keeps accumulated
/// radiance representable.
pub const DEPTH_MAX: u32 = 1024;

/// Largest supported canvas extent, in pixels.
pub const CANVAS_MAX: u32 = 4096;

/// Largest per-pixel sample count.
pub const SAMPLES_MAX: u32 = 4096;

/// Largest component magnitude a traced radiance estimate can reach.
pub const TRACE_MAX: i64 = 0x200_0000_0000;

/// Render settings, immutable once a render begins.
#[derive(Clone, Copy, Debug, PartialEq, Eq, Structural)]
pub struct Settings {
    pub max_reflection_depth: u32,
    pub num_samples: u32,
    pub num_frames: u32,
}

/// Validated ranges of the settings: at least one sample and one frame, and
/// machine caps on depth and samples.
pub open spec fn settings_wf(s: Settings) -> bool {
    &&& s.max_reflection_depth <= DEPTH_MAX
    &&& 1 <= s.num_samples <= SAMPLES_MAX
    &&& 1 <= s.num_frames
}

impl Settings {
    /// New settings from validated components.
    pub fn new(max_reflection_depth: u32, num_samples: u32, num_frames: u32) -> (s: Settings)
        requires
            max_reflection_depth <= DEPTH_MAX,
            1 <= num_samples <= SAMPLES_MAX,
            1 <= num_frames,
        ensures
            s == (Settings { max_reflection_depth, num_samples, num_frames }),
            settings_wf(s),
    {
        Settings { max_reflection_depth, num_samples, num_frames }
    }
}

/// The mathematical value of a [`Scene`].
pub ghost struct SceneV {
    pub spheres: Seq<SphereV>,
    pub cubes: Seq<CubeV>,
}

/// A scene: ordered collections of primitives by type, append-only during
/// setup and read-only during rendering.
pub struct Scene {
    spheres: Vec<Sphere>,
    cubes: Vec<Cube>,
}

impl View for Scene {
    type V = SceneV;

    closed spec fn view(&self) -> SceneV {
        SceneV {
            spheres: self.spheres@.map_values(|s: Sphere| s@),
            cubes: self.cubes@.map_values(|c: Cube| c@),
        }
    }
}

/// Every primitive of the scene has validated ranges.
pub open spec fn scene_wf(s: SceneV) -> bool {
    &&& forall|i: int| 0 <= i < s.spheres.len() ==> sphere_wf(#[trigger] s.spheres[i])
    &&& forall|i: int| 0 <= i < s.cubes.len() ==> cube_wf(#[trigger] s.cubes[i])
}

impl Scene {
    /// A new empty scene.
    pub fn new() -> (s: Scene)
        ensures
            s@.spheres.len() == 0,
            s@.cubes.len() == 0,
            scene_wf(s@),
    {
        Scene { spheres: Vec::new(), cubes: Vec::new() }
    }

    /// Append a sphere to the scene.
    pub fn add_sphere(&mut self, sphere: Sphere)
        requires
            sphere_wf(sphere@),
        ensures
            final(self)@.spheres == old(self)@.spheres.push(sphere@),
            final(self)@.cubes == old(self)@.cubes,
            scene_wf(old(self)@) ==> scene_wf(final(self)@),
    {
        self.spheres.push(sphere);
        proof {
            assert(final(self)@.spheres =~= old(self)@.spheres.push(sphere@));
            assert(final(self)@.cubes =~= old(self)@.cubes);
        }
    }

    /// Append a box to the scene.
    pub fn add_cube(&mut self, cube: Cube)
        requires
            cube_wf(cube@),
        ensures
            final(self)@.cubes == old(self)@.cubes.push(cube@),
            final(self)@.spheres == old(self)@.spheres,
            scene_wf(old(self)@) ==> scene_wf(final(self)@),
    {
        self.cubes.push(cube);
        proof {
            assert(final(self)@.cubes =~= old(self)@.cubes.push(cube@));
            assert(final(self)@.spheres =~= old(self)@.spheres);
        }
    }

    /// How many spheres the scene holds.
    pub fn sphere_count(&self) -> (n: usize)
        ensures
            n == self@.spheres.len(),
    {
        self.spheres.len()
    }

    /// How many boxes the scene holds.
    pub fn cube_count(&self) -> (n: usize)
        ensures
            n == self@.cubes.len(),
    {
        self.cubes.len()
    }
}

/// The best sphere candidate among the first `n` spheres: the hit with the
/// smallest ray parameter, earlier spheres winning ties.
pub open spec fn spec_best_sphere(spheres: Seq<SphereV>, ray: RayV, n: nat) -> Option<(HitV, int)>
    recommends
        n <= spheres.len(),
    decreases n,
{
    if n == 0 {
        Option::None
    } else {
        let prev = spec_best_sphere(spheres, ray, (n - 1) as nat);
        match spec_sphere_intersect(spheres[n - 1], ray) {
            Option::None => prev,
            Option::Some(h) => match prev {
                Option::None => Option::Some((h, n - 1)),
                Option::Some((ph, pi)) => if h.t < ph.t {
                    Option::Some((h, n - 1))
                } else {
                    prev
                },
            },
        }
    }
}

/// The best box candidate among the first `n` boxes.
pub open spec fn spec_best_cube(cubes: Seq<CubeV>, ray: RayV, n: nat) -> Option<(HitV, int)>
    recommends
        n <= cubes.len(),
    decreases n,
{
    if n == 0 {
        Option::None
    } else {
        let prev = spec_best_cube(cubes, ray, (n - 1) as nat);
        match spec_cube_intersect(cubes[n - 1], ray) {
            Option::None => prev,
            Option::Some(h) => match prev {
                Option::None => Option::Some((h, n - 1)),
                Option::Some((ph, pi)) => if h.t < ph.t {
                    Option::Some((h, n - 1))
                } else {
                    prev
                },
            },
        }
    }
}

/// The globally closest hit in the scene: best of each type, then the
/// resolver's arbitration.
pub open spec fn spec_closest_hit(scene: SceneV, ray: RayV) -> ClosestV {
    spec_resolve(
        spec_best_sphere(scene.spheres, ray, scene.spheres.len()),
        spec_best_cube(scene.cubes, ray, scene.cubes.len()),
    )
}

/// One bounce at a hit: the sampler draws the scatter direction, emitted
/// radiance weighted by the throughput is added, the throughput is attenuated
/// by the albedo, and an emissive hit terminates the path.
pub open spec fn spec_bounce(
    scene: SceneV,
    rem: nat,
    tp: Vec3,
    rng: u32,
    point: Vec3,
    normal: Vec3,
    m: MaterialV,
) -> (Vec3, u32)
    decreases rem, 2nat,
{
    let (dir, rng2) = spec_hemisphere(normal, rng);
    let emitted = v3_scale(m.emission_color, m.emission_power);
    let emission = v3_mul_ew(emitted, tp);
    if m.emission_power > 0 {
        (emission, rng2)
    } else {
        let next_ray = RayV { origin: point, direction: dir };
        let tp2 = v3_mul_ew(tp, m.color);
        let (rest, rng3) = spec_trace(scene, next_ray, rem, tp2, rng2);
        (v3_add(emission, rest), rng3)
    }
}

/// The traced radiance of a ray: intersect, shade, scatter, repeat, up to
/// `depth` bounces; a miss yields the throughput-weighted background, an
/// exhausted depth yields the radiance gathered so far (zero for unlit
/// paths). The pair also carries the sampler state after the trace.
pub open spec fn spec_trace(scene: SceneV, ray: RayV, depth: nat, tp: Vec3, rng: u32) -> (
    Vec3,
    u32,
)
    decreases depth, 1nat,
{
    if depth == 0 {
        (v3_zero(), rng)
    } else {
        match spec_closest_hit(scene, ray) {
            ClosestV::Miss => (v3_mul_ew(tp, spec_background(ray)), rng),
            ClosestV::Sphere { hit, index } => spec_bounce(
                scene,
                (depth - 1) as nat,
                tp,
                rng,
                hit.point,
                spec_sphere_normal(scene.spheres[index], hit.point),
                scene.spheres[index].material,
            ),
            ClosestV::Cube { hit, index } => spec_bounce(
                scene,
                (depth - 1) as nat,
                tp,
                rng,
                hit.point,
                spec_cube_normal(scene.cubes[index], hit.point),
                scene.cubes[index].material,
            ),
        }
    }
}

/// The continuation form of a partly traced path: the radiance gathered so
/// far plus whatever the remaining trace yields.
pub open spec fn spec_trace_cont(
    scene: SceneV,
    ray: RayV,
    depth: nat,
    tp: Vec3,
    rng: u32,
    gathered: Vec3,
) -> (Vec3, u32) {
    let (rest, s) = spec_trace(scene, ray, depth, tp, rng);
    (v3_add(gathered, rest), s)
}

/// The mathematical value of a [`Renderer`].
pub ghost struct RendererV {
    pub scene: SceneV,
    pub settings: Settings,
    pub width: int,
    pub height: int,
    pub acc: Seq<u32>,
    pub frame: int,
}

/// The progressive renderer: a scene, settings, a canvas extent, the
/// accumulation buffer persisted across frames, and the current frame index.
pub struct Renderer {
    scene: Scene,
    settings: Settings,
    width: u32,
    height: u32,
    cumulative_image_data: Vec<u32>,
    current_frame: u32,
}

impl View for Renderer {
    type V = RendererV;

    closed spec fn view(&self) -> RendererV {
        RendererV {
            scene: self.scene@,
            settings: self.settings,
            width: self.width as int,
            height: self.height as int,
            acc: self.cumulative_image_data@,
            frame: self.current_frame as int,
        }
    }
}

/// A well-formed renderer: validated scene and settings, a supported canvas
/// extent, and an accumulation buffer of one channel per canvas byte.
pub open spec fn renderer_wf(r: RendererV) -> bool {
    &&& scene_wf(r.scene)
    &&& settings_wf(r.settings)
    &&& 1 <= r.width <= CANVAS_MAX
    &&& 1 <= r.height <= CANVAS_MAX
    &&& r.acc.len() == r.width * r.height * 4
    &&& 0 <= r.frame
}

impl Renderer {
    /// A new renderer over a scene and settings, with a cleared accumulation
    /// buffer.
    pub fn new(scene: Scene, settings: Settings, width: u32, height: u32) -> (r: Renderer)
        requires
            scene_wf(scene@),
            settings_wf(settings),
            1 <= width <= CANVAS_MAX,
            1 <= height <= CANVAS_MAX,
        ensures
            r@.scene == scene@,
            r@.settings == settings,
            r@.width == width,
            r@.height == height,
            r@.frame == 0,
            r@.acc.len() == width * height * 4,
            forall|i: int| 0 <= i < r@.acc.len() ==> r@.acc[i] == 0,
            renderer_wf(r@),
    {
        proof {
            vstd::arithmetic::mul::lemma_mul_upper_bound(
                width as int,
                CANVAS_MAX as int,
                height as int,
                CANVAS_MAX as int,
            );
            vstd::arithmetic::mul::lemma_mul_nonnegative(width as int, height as int);
        }
        let len: usize = (width as usize) * (height as usize) * 4;
        let mut acc: Vec<u32> = Vec::with_capacity(len);
        let mut k: usize = 0;
        while k < len
            invariant
                k <= len,
                acc@.len() == k,
                forall|i: int| 0 <= i < k ==> acc@[i] == 0,
            decreases len - k,
        {
            acc.push(0);
            k = k + 1;
        }
        Renderer {
            scene,
            settings,
            width,
            height,
            cumulative_image_data: acc,
            current_frame: 0,
        }
    }

    /// The renderer's settings.
    pub fn get_settings(&self) -> (s: Settings)
        ensures
            s == self@.settings,
    {
        self.settings
    }

    /// The frame index of the next frame to render.
    pub fn get_current_frame(&self) -> (f: u32)
        ensures
            f == self@.frame,
    {
        self.current_frame
    }

    /// Whether another frame is still owed under the settings' frame count:
    /// the host scheduler renders while this holds and then stops.
    pub fn has_frames_left(&self) -> (b: bool)
        ensures
            b == (self@.frame < self@.settings.num_frames as int),
    {
        self.current_frame < self.settings.num_frames
    }

    /// The accumulation buffer: per-channel running sums across frames.
    pub fn get_accumulation(&self) -> (a: &Vec<u32>)
        ensures
            a@ == self@.acc,
    {
        &self.cumulative_image_data
    }

    /// The globally closest hit of a ray against every primitive in the
    /// scene: the per-type bests, then the resolver's arbitration.
    pub fn closest_hit(&self, ray: &Ray) -> (r: ClosestHit)
        ensures
            r@ == spec_closest_hit(self@.scene, ray@),
            r@ matches ClosestV::Sphere { index, .. } ==> 0 <= index < self@.scene.spheres.len(),
            r@ matches ClosestV::Cube { index, .. } ==> 0 <= index < self@.scene.cubes.len(),
    {
        let ghost sv: Seq<SphereV> = self@.scene.spheres;
        let ghost cv: Seq<CubeV> = self@.scene.cubes;
        let mut best_sphere: Option<(Intersection, usize)> = None;
        let mut i: usize = 0;
        let n_spheres: usize = self.scene.spheres.len();
        while i < n_spheres
            invariant
                i <= n_spheres,
                n_spheres == sv.len(),
                sv == self@.scene.spheres,
                crate::intersection::opt_hit_view(best_sphere) == spec_best_sphere(
                    sv,
                    ray@,
                    i as nat,
                ),
                best_sphere matches Some((_, k)) ==> k < i,
            decreases n_spheres - i,
        {
            proof {
                assert(sv[i as int] == self.scene.spheres@[i as int]@);
            }
            let candidate: Option<Intersection> = self.scene.spheres[i].intersect(ray);
            match candidate {
                Some(h) => {
                    match best_sphere {
                        Some((bh, bi)) => {
                            if h.t < bh.t {
                                best_sphere = Some((h, i));
                            }
                        },
                        None => {
                            best_sphere = Some((h, i));
                        },
                    }
                },
                None => {},
            }
            i = i + 1;
        }
        let mut best_cube: Option<(Intersection, usize)> = None;
        let mut j: usize = 0;
        let n_cubes: usize = self.scene.cubes.len();
        while j < n_cubes
            invariant
                j <= n_cubes,
                n_cubes == cv.len(),
                cv == self@.scene.cubes,
                crate::intersection::opt_hit_view(best_cube) == spec_best_cube(cv, ray@, j as nat),
                best_cube matches Some((_, k)) ==> k < j,
            decreases n_cubes - j,
        {
            proof {
                assert(cv[j as int] == self.scene.cubes@[j as int]@);
            }
            let candidate: Option<Intersection> = self.scene.cubes[j].intersect(ray);
            match candidate {
                Some(h) => {
                    match best_cube {
                        Some((bh, bi)) => {
                            if h.t < bh.t {
                                best_cube = Some((h, j));
                            }
                        },
                        None => {
                            best_cube = Some((h, j));
                        },
                    }
                },
                None => {},
            }
            j = j + 1;
        }
        crate::intersection::resolve_closest(best_sphere, best_cube)
    }

    /// One full light-transport estimate for a single ray: up to
    /// `depth` bounces of intersect, shade and scatter, with `ray_color` as
    /// the path's initial throughput. The sampler draws every scatter
    /// direction, so equal seeds give equal estimates.
    #[verifier::rlimit(60)]
    pub fn trace_ray(&self, ray: Ray, depth: u32, ray_color: Vector, random: &mut Random) -> (c:
        Vector)
        requires
            scene_wf(self@.scene),
            bounded_v3(ray@.origin, COORD_MAX as int),
            bounded_v3(ray@.direction, COORD_MAX as int),
            depth <= DEPTH_MAX,
            color_wf(ray_color@),
        ensures
            c@ == spec_trace(self@.scene, ray@, depth as nat, ray_color@, old(random)@).0,
            final(random)@ == spec_trace(self@.scene, ray@, depth as nat, ray_color@, old(
                random,
            )@).1,
            bounded_v3(c@, TRACE_MAX as int),
    {
        let ghost scene0: SceneV = self@.scene;
        let ghost ray0: RayV = ray@;
        let ghost tp0: Vec3 = ray_color@;
        let ghost rng0: u32 = old(random)@;
        let mut cur_ray: Ray = ray;
        let mut tp: Vector = ray_color;
        let mut incoming: Vector = Vector::default();
        let mut i: u32 = 0;
        while i < depth
            invariant
                i <= depth,
                depth <= DEPTH_MAX,
                scene0 == self@.scene,
                ray0 == ray@,
                tp0 == ray_color@,
                rng0 == old(random)@,
                scene_wf(scene0),
                bounded_v3(cur_ray@.direction, COORD_MAX as int),
                color_wf(tp@),
                0 <= incoming@.x <= i * (EMISSION_MAX as int),
                0 <= incoming@.y <= i * (EMISSION_MAX as int),
                0 <= incoming@.z <= i * (EMISSION_MAX as int),
                spec_trace(scene0, ray0, depth as nat, tp0, rng0) == spec_trace_cont(
                    scene0,
                    cur_ray@,
                    (depth - i) as nat,
                    tp@,
                    random@,
                    incoming@,
                ),
            decreases depth - i,
        {
            let ghost pre_ray: RayV = cur_ray@;
            let ghost pre_tp: Vec3 = tp@;
            let ghost pre_rng: u32 = random@;
            let ghost rem: nat = (depth - i) as nat;
            let closest: ClosestHit = self.closest_hit(&cur_ray);
            match closest {
                ClosestHit::Miss => {
                    let bg: Vector = cur_ray.get_background_color();
                    proof {
                        lemma_background_bounds(pre_ray);
                        lemma_miss_result_bounds(pre_tp, bg@);
                        assert(spec_trace(scene0, pre_ray, rem, pre_tp, pre_rng) == (
                        v3_mul_ew(pre_tp, spec_background(pre_ray)),
                        pre_rng,
                        ));
                    }
                    let weighted: Vector = tp.multiply_elementwise(&bg);
                    return incoming.add(&weighted);
                },
                ClosestHit::Sphere { hit, index } => {
                    let sphere: Sphere = self.scene.spheres[index];
                    proof {
                        assert(sphere@ == scene0.spheres[index as int]);
                    }
                    let normal: Vector = sphere.calculate_normal(&hit.intersection_point);
                    let new_dir: Vector = random.random_hemisphere_direction(&normal);
                    cur_ray = Ray::new(hit.intersection_point, new_dir);
                    proof {
                        lemma_emission_bounds(sphere@.material, pre_tp);
                    }
                    let emitted: Vector = sphere.material.emission_color.multiply(
                        sphere.material.emission_power,
                    );
                    let emission: Vector = emitted.multiply_elementwise(&tp);
                    incoming = incoming.add(&emission);
                    tp = tp.multiply_elementwise(&sphere.material.color);
                    if sphere.material.emission_power > 0 {
                        return incoming;
                    }
                },
                ClosestHit::Cube { hit, index } => {
                    let cube: Cube = self.scene.cubes[index];
                    proof {
                        assert(cube@ == scene0.cubes[index as int]);
                    }
                    let normal: Vector = cube.calculate_normal(&hit.intersection_point);
                    let new_dir: Vector = random.random_hemisphere_direction(&normal);
                    cur_ray = Ray::new(hit.intersection_point, new_dir);
                    proof {
                        lemma_emission_bounds(cube@.material, pre_tp);
                    }
                    let emitted: Vector = cube.material.emission_color.multiply(
                        cube.material.emission_power,
                    );
                    let emission: Vector = emitted.multiply_elementwise(&tp);
                    incoming = incoming.add(&emission);
                    tp = tp.multiply_elementwise(&cube.material.color);
                    if cube.material.emission_power > 0 {
                        return incoming;
                    }
                },
            }
            i = i + 1;
        }
        incoming
    }

    /// The multi-sample radiance estimate for one pixel of the current
    /// frame: `num_samples` jittered camera rays, traced and averaged, from a
    /// sampler seeded by the pixel, the canvas extent and the frame index.
    pub fn per_pixel(&self, x: u32, y: u32) -> (c: Vector)
        requires
            renderer_wf(self@),
            x < self@.width,
            y < self@.height,
        ensures
            c@ == spec_per_pixel(self@, x as int, y as int),
            bounded_v3(c@, TRACE_MAX as int),
    {
        let ghost rv: RendererV = self@;
        proof {
            assert((self@.width as int) * (self@.height as int) <= 0x100_0000) by (nonlinear_arith)
                requires
                    1 <= self@.width <= 4096,
                    1 <= self@.height <= 4096,
            ;
        }
        let area: u64 = (self.width as u64) * (self.height as u64);
        proof {
            vstd::arithmetic::mul::lemma_mul_upper_bound(
                self.current_frame as int,
                0x1_0000_0000,
                area as int,
                0x100_0000,
            );
            vstd::arithmetic::mul::lemma_mul_nonnegative(self.current_frame as int, area as int);
            vstd::arithmetic::mul::lemma_mul_upper_bound(
                y as int,
                0x1000,
                self.width as int,
                0x1000,
            );
            vstd::arithmetic::mul::lemma_mul_nonnegative(y as int, self.width as int);
        }
        let wide: u64 = (RENDER_SEED as u64) + (self.current_frame as u64) * area + (y as u64) * (
        self.width as u64) + (x as u64);
        let seed: u32 = (wide % 0x1_0000_0000) as u32;
        proof {
            assert(seed == spec_pixel_seed(rv.width, rv.height, x as int, y as int, rv.frame));
        }
        let mut random: Random = Random::new(seed);
        let mut accumulated: Vector = Vector::default();
        let n: u32 = self.settings.num_samples;
        let mut s: u32 = 0;
        while s < n
            invariant
                s <= n,
                rv == self@,
                n == rv.settings.num_samples,
                renderer_wf(rv),
                x < rv.width,
                y < rv.height,
                accumulated@ == spec_accumulate_samples(rv, x as int, y as int, s as nat, seed).0,
                random@ == spec_accumulate_samples(rv, x as int, y as int, s as nat, seed).1,
                -(s * (TRACE_MAX as int)) <= accumulated@.x <= s * (TRACE_MAX as int),
                -(s * (TRACE_MAX as int)) <= accumulated@.y <= s * (TRACE_MAX as int),
                -(s * (TRACE_MAX as int)) <= accumulated@.z <= s * (TRACE_MAX as int),
            decreases n - s,
        {
            let jxr: i64 = random.random_value();
            proof {
                lemma_jitter_bound(jxr as int);
            }
            let jx: i64 = crate::fixed::fix_div(jxr - HALF, 2 * SCALE);
            let jyr: i64 = random.random_value();
            proof {
                lemma_jitter_bound(jyr as int);
            }
            let jy: i64 = crate::fixed::fix_div(jyr - HALF, 2 * SCALE);
            proof {
                lemma_camera_dir_bounds(
                    rv.width,
                    rv.height,
                    x as int,
                    y as int,
                    s as int,
                    n as int,
                    jx as int,
                    jy as int,
                );
            }
            let nf: i64 = (n as i64) * SCALE;
            let sx: i64 = (x as i64) * SCALE + crate::fixed::fix_div((s as i64) * SCALE + jx, nf);
            let sy: i64 = (y as i64) * SCALE + crate::fixed::fix_div((s as i64) * SCALE + jy, nf);
            let wf: i64 = (self.width as i64) * SCALE;
            let hf: i64 = (self.height as i64) * SCALE;
            let dx: i64 = 2 * crate::fixed::fix_div(sx, wf) - SCALE;
            let aspect: i64 = crate::fixed::fix_div(wf, hf);
            let dy: i64 = crate::fixed::fix_div(2 * crate::fixed::fix_div(sy, hf) - SCALE, aspect);
            let dir: Vector = Vector::new(dx, dy, -SCALE);
            let ray: Ray = Ray::new(Vector::default(), dir);
            let white: Vector = Vector::new(SCALE, SCALE, SCALE);
            let color: Vector = self.trace_ray(
                ray,
                self.settings.max_reflection_depth,
                white,
                &mut random,
            );
            accumulated = accumulated.add(&color);
            s = s + 1;
        }
        proof {
            lemma_avg_bound(accumulated@.x, n as int, TRACE_MAX as int);
            lemma_avg_bound(accumulated@.y, n as int, TRACE_MAX as int);
            lemma_avg_bound(accumulated@.z, n as int, TRACE_MAX as int);
        }
        accumulated.divide((n as i64) * SCALE).unwrap()
    }

    /// Merge one rendered frame into the running accumulation buffer with a
    /// saturating per-channel add, advance the frame counter, and return the
    /// averaged display image for the frame just merged. Accumulation is
    /// monotonic: no channel ever decreases. Each displayed channel equals
    /// its accumulated sum divided by the number of frames merged, clamped to
    /// a byte.
    pub fn accumulate(&mut self, frame: &Vec<u8>) -> (avg: Vec<u8>)
        requires
            frame@.len() == old(self)@.acc.len(),
            old(self)@.frame < 0xFFFF_FFFF,
        ensures
            final(self)@.scene == old(self)@.scene,
            final(self)@.settings == old(self)@.settings,
            final(self)@.width == old(self)@.width,
            final(self)@.height == old(self)@.height,
            final(self)@.frame == old(self)@.frame + 1,
            final(self)@.acc.len() == old(self)@.acc.len(),
            forall|i: int|
                0 <= i < old(self)@.acc.len() ==> final(self)@.acc[i] == sat_add32(
                    old(self)@.acc[i],
                    frame@[i] as u32,
                ),
            forall|i: int|
                0 <= i < old(self)@.acc.len() ==> final(self)@.acc[i] >= old(self)@.acc[i],
            avg@.len() == old(self)@.acc.len(),
            forall|i: int|
                0 <= i < avg@.len() ==> avg@[i] == spec_avg_byte(
                    final(self)@.acc[i],
                    old(self)@.frame + 1,
                ),
    {
        let ghost acc0: Seq<u32> = self@.acc;
        let ghost rv0: RendererV = self@;
        let k: u32 = self.current_frame + 1;
        let len: usize = self.cumulative_image_data.len();
        let mut i: usize = 0;
        while i < len
            invariant
                i <= len,
                rv0 == old(self)@,
                acc0 == old(self)@.acc,
                len == acc0.len(),
                frame@.len() == acc0.len(),
                self@.scene == rv0.scene,
                self@.settings == rv0.settings,
                self@.width == rv0.width,
                self@.height == rv0.height,
                self@.frame == rv0.frame,
                self@.acc.len() == acc0.len(),
                forall|j: int|
                    0 <= j < i ==> self@.acc[j] == sat_add32(acc0[j], frame@[j] as u32),
                forall|j: int| i <= j < acc0.len() ==> self@.acc[j] == acc0[j],
            decreases len - i,
        {
            let v: u32 = self.cumulative_image_data[i].saturating_add(frame[i] as u32);
            self.cumulative_image_data[i] = v;
            i = i + 1;
        }
        let mut avg: Vec<u8> = Vec::with_capacity(len);
        let mut j: usize = 0;
        while j < len
            invariant
                j <= len,
                rv0 == old(self)@,
                acc0 == old(self)@.acc,
                len == acc0.len(),
                frame@.len() == acc0.len(),
                k >= 1,
                k == rv0.frame + 1,
                self@.scene == rv0.scene,
                self@.settings == rv0.settings,
                self@.width == rv0.width,
                self@.height == rv0.height,
                self@.frame == rv0.frame,
                self@.acc.len() == acc0.len(),
                forall|m: int|
                    0 <= m < acc0.len() ==> self@.acc[m] == sat_add32(acc0[m], frame@[m] as u32),
                forall|m: int|
                    0 <= m < acc0.len() ==> self@.acc[m] >= acc0[m],
                avg@.len() == j,
                forall|m: int|
                    0 <= m < j ==> avg@[m] == spec_avg_byte(self@.acc[m], k as int),
            decreases len - j,
        {
            let q: u32 = self.cumulative_image_data[j] / k;
            let b: u8 = if q > 255 {
                255
            } else {
                q as u8
            };
            avg.push(b);
            j = j + 1;
        }
        self.current_frame = k;
        avg
    }

    /// Render one full frame: every pixel's multi-sample estimate, quantized
    /// to RGBA bytes, merged into the accumulation buffer, and returned as
    /// the averaged display image for this frame.
    #[verifier::rlimit(60)]
    pub fn render_frame(&mut self) -> (display: Vec<u8>)
        requires
            renderer_wf(old(self)@),
            old(self)@.frame < 0xFFFF_FFFF,
        ensures
            renderer_wf(final(self)@),
            final(self)@.scene == old(self)@.scene,
            final(self)@.settings == old(self)@.settings,
            final(self)@.width == old(self)@.width,
            final(self)@.height == old(self)@.height,
            final(self)@.frame == old(self)@.frame + 1,
            final(self)@.acc.len() == old(self)@.acc.len(),
            forall|i: int|
                0 <= i < old(self)@.acc.len() ==> final(self)@.acc[i] == sat_add32(
                    old(self)@.acc[i],
                    spec_frame_byte(old(self)@, i) as u32,
                ),
            forall|i: int|
                0 <= i < old(self)@.acc.len() ==> final(self)@.acc[i] >= old(self)@.acc[i],
            display@.len() == old(self)@.acc.len(),
            forall|i: int|
                0 <= i < display@.len() ==> display@[i] == spec_avg_byte(
                    final(self)@.acc[i],
                    old(self)@.frame + 1,
                ),
    {
        let ghost rv0: RendererV = self@;
        let w: u32 = self.width;
        let h: u32 = self.height;
        let mut data: Vec<u8> = Vec::new();
        let mut y: u32 = 0;
        while y < h
            invariant
                y <= h,
                rv0 == old(self)@,
                self@ == rv0,
                renderer_wf(rv0),
                w == rv0.width,
                h == rv0.height,
                data@.len() == y * w * 4,
                forall|j: int| 0 <= j < data@.len() ==> data@[j] == spec_frame_byte(rv0, j),
            decreases h - y,
        {
            let mut x: u32 = 0;
            while x < w
                invariant
                    x <= w,
                    y < h,
                    rv0 == old(self)@,
                    self@ == rv0,
                    renderer_wf(rv0),
                    w == rv0.width,
                    h == rv0.height,
                    data@.len() == (y * w + x) * 4,
                    forall|j: int| 0 <= j < data@.len() ==> data@[j] == spec_frame_byte(rv0, j),
                decreases w - x,
            {
                proof {
                    vstd::arithmetic::mul::lemma_mul_upper_bound(
                        y as int,
                        0x1000,
                        w as int,
                        0x1000,
                    );
                    vstd::arithmetic::mul::lemma_mul_nonnegative(y as int, w as int);
                    lemma_frame_byte_decompose(rv0, x as int, y as int);
                }
                let color: Vector = self.per_pixel(x, y);
                data.push(quantize(color.x));
                data.push(quantize(color.y));
                data.push(quantize(color.z));
                data.push(255);
                x = x + 1;
            }
            proof {
                vstd::arithmetic::mul::lemma_mul_is_distributive_add_other_way(
                    w as int,
                    y as int,
                    1,
                );
            }
            y = y + 1;
        }
        proof {
            vstd::arithmetic::mul::lemma_mul_is_commutative(h as int, w as int);
        }
        self.accumulate(&data)
    }
}

/// The byte at offset `i` of a freshly rendered frame: the pixel's quantized
/// channel, or an opaque alpha byte.
pub open spec fn spec_frame_byte(rv: RendererV, i: int) -> u8
    recommends
        0 <= i < rv.width * rv.height * 4,
{
    let p = i / 4;
    let ch = i % 4;
    let x = p % rv.width;
    let y = p / rv.width;
    if ch == 3 {
        255u8
    } else {
        let c = spec_per_pixel(rv, x, y);
        let v = if ch == 0 {
            c.x
        } else if ch == 1 {
            c.y
        } else {
            c.z
        };
        spec_quantize(v)
    }
}

/// A radiance channel quantized to a byte: scaled by 255, truncated to an
/// integer, and clamped to `[0, 255]`.
pub open spec fn spec_quantize(c: int) -> u8 {
    let q = crate::fixed::tdiv(crate::fixed::fmul(c, 255 * (SCALE as int)), SCALE as int);
    if q < 0 {
        0u8
    } else if q > 255 {
        255u8
    } else {
        q as u8
    }
}

/// Quantize one radiance channel to a display byte.
fn quantize(c: i64) -> (b: u8)
    requires
        -(TRACE_MAX as int) <= c <= TRACE_MAX as int,
    ensures
        b == spec_quantize(c as int),
{
    proof {
        crate::fixed::lemma_fmul_bound(c as int, 255 * (SCALE as int), TRACE_MAX as int, 0xFF_0000);
    }
    let v: i64 = crate::fixed::fix_mul(c, 255 * SCALE);
    let q: i64 = v.checked_div(SCALE).unwrap();
    proof {
        assert(q == crate::fixed::tdiv(v as int, SCALE as int));
    }
    if q < 0 {
        0
    } else if q > 255 {
        255
    } else {
        q as u8
    }
}

/// In a scene with no primitives, a traced ray yields exactly the background
/// gradient for any positive depth and any throughput of one, and the
/// sampler state is untouched: no stochastic branching occurs, so every
/// sample of a pixel sees the same radiance.
pub proof fn lemma_empty_scene_background(scene: SceneV, ray: RayV, depth: nat, rng: u32)
    requires
        scene.spheres.len() == 0,
        scene.cubes.len() == 0,
        depth >= 1,
    ensures
        spec_trace(
            scene,
            ray,
            depth,
            Vec3 { x: SCALE as int, y: SCALE as int, z: SCALE as int },
            rng,
        ) == (spec_background(ray), rng),
{
    let white = Vec3 { x: SCALE as int, y: SCALE as int, z: SCALE as int };
    assert(spec_closest_hit(scene, ray) is Miss);
    let bg = spec_background(ray);
    crate::fixed::lemma_fmul_unit(bg.x);
    crate::fixed::lemma_fmul_unit(bg.y);
    crate::fixed::lemma_fmul_unit(bg.z);
    assert(v3_mul_ew(white, bg) == bg);
}

/// The sample sum of a pixel depends only on the scene, the settings and the
/// canvas extent, never on the accumulation buffer.
proof fn lemma_samples_agree(a: RendererV, b: RendererV, x: int, y: int, n: nat, rng: u32)
    requires
        a.scene == b.scene,
        a.settings == b.settings,
        a.width == b.width,
        a.height == b.height,
    ensures
        spec_accumulate_samples(a, x, y, n, rng) == spec_accumulate_samples(b, x, y, n, rng),
    decreases n,
{
    if n > 0 {
        lemma_samples_agree(a, b, x, y, (n - 1) as nat, rng);
        let rng1 = spec_accumulate_samples(a, x, y, (n - 1) as nat, rng).1;
        assert(spec_one_sample(a, x, y, n - 1, rng1) == spec_one_sample(b, x, y, n - 1, rng1));
    }
}

/// Determinism of a pixel: two renderers over the same scene, settings,
/// canvas extent and frame index give the same pixel color, whatever their
/// accumulation buffers hold.
pub proof fn lemma_per_pixel_deterministic(a: RendererV, b: RendererV, x: int, y: int)
    requires
        a.scene == b.scene,
        a.settings == b.settings,
        a.width == b.width,
        a.height == b.height,
        a.frame == b.frame,
    ensures
        spec_per_pixel(a, x, y) == spec_per_pixel(b, x, y),
{
    let seed = spec_pixel_seed(a.width, a.height, x, y, a.frame);
    lemma_samples_agree(a, b, x, y, a.settings.num_samples as nat, seed);
}

/// Determinism of a frame: with equal seeds, scene, settings, canvas extent
/// and frame index, two renders produce byte-identical frame buffers.
pub proof fn lemma_render_deterministic(a: RendererV, b: RendererV, i: int)
    requires
        a.scene == b.scene,
        a.settings == b.settings,
        a.width == b.width,
        a.height == b.height,
        a.frame == b.frame,
    ensures
        spec_frame_byte(a, i) == spec_frame_byte(b, i),
{
    let p = i / 4;
    lemma_per_pixel_deterministic(a, b, p % a.width, p / a.width);
}

/// The four bytes of pixel `(x, y)` decompose the frame-byte index exactly.
proof fn lemma_frame_byte_decompose(rv: RendererV, x: int, y: int)
    requires
        renderer_wf(rv),
        0 <= x < rv.width,
        0 <= y < rv.height,
    ensures
        ({
            let base = (y * rv.width + x) * 4;
            let c = spec_per_pixel(rv, x, y);
            &&& spec_frame_byte(rv, base) == spec_quantize(c.x)
            &&& spec_frame_byte(rv, base + 1) == spec_quantize(c.y)
            &&& spec_frame_byte(rv, base + 2) == spec_quantize(c.z)
            &&& spec_frame_byte(rv, base + 3) == 255u8
        }),
{
    let p = y * rv.width + x;
    let base = p * 4;
    vstd::arithmetic::mul::lemma_mul_nonnegative(y, rv.width);
    vstd::arithmetic::div_mod::lemma_fundamental_div_mod_converse(base, 4, p, 0);
    vstd::arithmetic::div_mod::lemma_fundamental_div_mod_converse(base + 1, 4, p, 1);
    vstd::arithmetic::div_mod::lemma_fundamental_div_mod_converse(base + 2, 4, p, 2);
    vstd::arithmetic::div_mod::lemma_fundamental_div_mod_converse(base + 3, 4, p, 3);
    vstd::arithmetic::div_mod::lemma_fundamental_div_mod_converse(p, rv.width, y, x);
}

/// Saturating 32-bit addition.
pub open spec fn sat_add32(a: u32, b: u32) -> u32 {
    if a + b > u32::MAX {
        u32::MAX
    } else {
        (a + b) as u32
    }
}

/// The displayed byte of one accumulated channel after `k` frames: the
/// accumulated sum divided by `k`, clamped to a byte.
pub open spec fn spec_avg_byte(acc: u32, k: int) -> u8
    recommends
        k >= 1,
{
    let q = (acc as int) / k;
    if q > 255 {
        255u8
    } else {
        q as u8
    }
}

/// Averaging a sum of `n` bounded estimates stays within the bound.
proof fn lemma_avg_bound(sum: int, n: int, t: int)
    requires
        1 <= n,
        0 <= t,
        -(n * t) <= sum <= n * t,
    ensures
        -t <= crate::fixed::fdiv(sum, n * (SCALE as int)) <= t,
{
    let s_ = SCALE as int;
    vstd::arithmetic::mul::lemma_mul_inequality(sum, n * t, s_);
    vstd::arithmetic::mul::lemma_mul_inequality(-(n * t), sum, s_);
    assert((n * t) * s_ == (n * s_) * t) by (nonlinear_arith);
    crate::fixed::lemma_tdiv_bound(sum * s_, (n * s_) * t, n * s_);
    vstd::arithmetic::mul::lemma_mul_strictly_positive(n, s_);
    vstd::arithmetic::div_mod::lemma_div_multiples_vanish(t, n * s_);
}

/// A pixel count expressed as a fixed-point scalar.
pub open spec fn fix_of(k: int) -> int {
    k * (SCALE as int)
}

/// The base of every per-pixel sampler seed.
pub const RENDER_SEED: u32 = 367380976;

/// The sampler seed of one (pixel, frame) pair: derived from the pixel's
/// coordinates, the canvas extent and the frame index, so that pixels and
/// frames decorrelate while every render with equal inputs reproduces
/// exactly.
pub open spec fn spec_pixel_seed(width: int, height: int, x: int, y: int, frame: int) -> u32 {
    (((RENDER_SEED as int) + frame * (width * height) + y * width + x) % 0x1_0000_0000) as u32
}

/// The camera-ray direction of one jittered sub-pixel sample: the sample
/// position inside the pixel maps onto an image plane at `z = -1`, with `x`
/// spanning `[-1, 1]` and `y` scaled by the inverse aspect ratio.
pub open spec fn spec_sample_dir(
    width: int,
    height: int,
    x: int,
    y: int,
    sample: int,
    n: int,
    jx: int,
    jy: int,
) -> Vec3 {
    let sx = fix_of(x) + crate::fixed::fdiv(fix_of(sample) + jx, fix_of(n));
    let sy = fix_of(y) + crate::fixed::fdiv(fix_of(sample) + jy, fix_of(n));
    let dx = 2 * crate::fixed::fdiv(sx, fix_of(width)) - SCALE;
    let aspect = crate::fixed::fdiv(fix_of(width), fix_of(height));
    let dy = crate::fixed::fdiv(2 * crate::fixed::fdiv(sy, fix_of(height)) - SCALE, aspect);
    Vec3 { x: dx, y: dy, z: -(SCALE as int) }
}

/// One sample of a pixel: two jitter draws, the camera ray they define, and
/// its traced radiance, threading the sampler state throughout.
pub open spec fn spec_one_sample(rv: RendererV, x: int, y: int, sample: int, rng: u32) -> (
    Vec3,
    u32,
) {
    let jx = crate::fixed::fdiv(crate::random::rv_value(rng) - HALF, 2 * SCALE);
    let rng1 = crate::random::next_state(rng);
    let jy = crate::fixed::fdiv(crate::random::rv_value(rng1) - HALF, 2 * SCALE);
    let rng2 = crate::random::next_state(rng1);
    let dir = spec_sample_dir(
        rv.width,
        rv.height,
        x,
        y,
        sample,
        rv.settings.num_samples as int,
        jx,
        jy,
    );
    let ray = RayV { origin: v3_zero(), direction: dir };
    let white = Vec3 { x: SCALE as int, y: SCALE as int, z: SCALE as int };
    spec_trace(rv.scene, ray, rv.settings.max_reflection_depth as nat, white, rng2)
}

/// The sum of the first `n` sample estimates of a pixel, with the sampler
/// state after them.
pub open spec fn spec_accumulate_samples(rv: RendererV, x: int, y: int, n: nat, rng: u32) -> (
    Vec3,
    u32,
)
    decreases n,
{
    if n == 0 {
        (v3_zero(), rng)
    } else {
        let (prev, rng1) = spec_accumulate_samples(rv, x, y, (n - 1) as nat, rng);
        let (color, rng2) = spec_one_sample(rv, x, y, n - 1, rng1);
        (v3_add(prev, color), rng2)
    }
}

/// The color of one pixel for the renderer's current frame: the average of
/// `num_samples` jittered sample estimates, from the pixel's own seed.
pub open spec fn spec_per_pixel(rv: RendererV, x: int, y: int) -> Vec3 {
    let seed = spec_pixel_seed(rv.width, rv.height, x, y, rv.frame);
    let n = rv.settings.num_samples as int;
    let (sum, _) = spec_accumulate_samples(rv, x, y, n as nat, seed);
    crate::vector::v3_div_scalar(sum, fix_of(n))
}

/// A dividend within the (positive) divisor gives a quotient within one unit.
proof fn lemma_fdiv_le_unit(a: int, b: int)
    requires
        b >= 1,
        -b <= a <= b,
    ensures
        -(SCALE as int) <= crate::fixed::fdiv(a, b) <= SCALE as int,
{
    vstd::arithmetic::mul::lemma_mul_inequality(a, b, SCALE as int);
    vstd::arithmetic::mul::lemma_mul_inequality(-b, a, SCALE as int);
    crate::fixed::lemma_tdiv_bound(a * (SCALE as int), b * (SCALE as int), b);
    vstd::arithmetic::div_mod::lemma_div_multiples_vanish(SCALE as int, b);
}

/// A drawn scalar's jitter offset stays within a quarter unit.
proof fn lemma_jitter_bound(v: int)
    requires
        0 <= v <= SCALE as int,
    ensures
        -16384 <= crate::fixed::fdiv(v - HALF, 2 * SCALE as int) <= 16384,
        crate::fixed::fits(crate::fixed::fdiv(v - HALF, 2 * SCALE as int)),
{
    assert(2 * SCALE as int == 131072);
    crate::fixed::lemma_tdiv_bound((v - HALF) * (SCALE as int), 0x8000_0000, 131072);
}

/// Bounds of the camera-ray construction: every intermediate fits an `i64`
/// scalar and the resulting direction stays within the supported coordinate
/// range.
proof fn lemma_camera_dir_bounds(
    width: int,
    height: int,
    x: int,
    y: int,
    sample: int,
    n: int,
    jx: int,
    jy: int,
)
    requires
        1 <= width <= CANVAS_MAX as int,
        1 <= height <= CANVAS_MAX as int,
        0 <= x < width,
        0 <= y < height,
        0 <= sample < n,
        1 <= n <= SAMPLES_MAX as int,
        -16384 <= jx <= 16384,
        -16384 <= jy <= 16384,
    ensures
        ({
            let sx = fix_of(x) + crate::fixed::fdiv(fix_of(sample) + jx, fix_of(n));
            let sy = fix_of(y) + crate::fixed::fdiv(fix_of(sample) + jy, fix_of(n));
            let aspect = crate::fixed::fdiv(fix_of(width), fix_of(height));
            &&& -(SCALE as int) <= crate::fixed::fdiv(fix_of(sample) + jx, fix_of(n)) <= SCALE as int
            &&& -(SCALE as int) <= crate::fixed::fdiv(fix_of(sample) + jy, fix_of(n)) <= SCALE as int
            &&& -(SCALE as int) <= crate::fixed::fdiv(sx, fix_of(width)) <= SCALE as int
            &&& -(SCALE as int) <= crate::fixed::fdiv(sy, fix_of(height)) <= SCALE as int
            &&& 16 <= aspect <= 0x1000_0000
            &&& bounded_v3(
                spec_sample_dir(width, height, x, y, sample, n, jx, jy),
                COORD_MAX as int,
            )
        }),
{
    let s_ = SCALE as int;
    vstd::arithmetic::mul::lemma_mul_inequality(sample, n - 1, s_);
    lemma_fdiv_le_unit(fix_of(sample) + jx, fix_of(n));
    lemma_fdiv_le_unit(fix_of(sample) + jy, fix_of(n));
    let sx = fix_of(x) + crate::fixed::fdiv(fix_of(sample) + jx, fix_of(n));
    let sy = fix_of(y) + crate::fixed::fdiv(fix_of(sample) + jy, fix_of(n));
    vstd::arithmetic::mul::lemma_mul_inequality(x, width - 1, s_);
    vstd::arithmetic::mul::lemma_mul_inequality(y, height - 1, s_);
    lemma_fdiv_le_unit(sx, fix_of(width));
    lemma_fdiv_le_unit(sy, fix_of(height));
    let aspect = crate::fixed::fdiv(fix_of(width), fix_of(height));
    vstd::arithmetic::mul::lemma_mul_inequality(fix_of(width), 0x1000_0000, s_);
    crate::fixed::lemma_tdiv_bound(fix_of(width) * s_, 0x1000_0000_0000, fix_of(height));
    vstd::arithmetic::div_mod::lemma_div_is_ordered_by_denominator(
        0x1000_0000_0000,
        65536,
        fix_of(height),
    );
    crate::fixed::lemma_tdiv_nonneg(fix_of(width) * s_, fix_of(height));
    vstd::arithmetic::mul::lemma_mul_inequality(0x1_0000, fix_of(width), s_);
    vstd::arithmetic::div_mod::lemma_div_is_ordered(
        0x1_0000_0000,
        fix_of(width) * s_,
        fix_of(height),
    );
    vstd::arithmetic::div_mod::lemma_div_is_ordered_by_denominator(
        0x1_0000_0000,
        fix_of(height),
        0x1000_0000,
    );
    let py = 2 * crate::fixed::fdiv(sy, fix_of(height)) - s_;
    crate::fixed::lemma_tdiv_bound(py * s_, 0x3_0000_0000, aspect);
    vstd::arithmetic::div_mod::lemma_div_is_ordered_by_denominator(0x3_0000_0000, 16, aspect);
    vstd::arithmetic::mul::lemma_mul_inequality(-0x3_0000, py, s_);
    vstd::arithmetic::mul::lemma_mul_inequality(py, 0x3_0000, s_);
}

/// The background gradient of a supported ray stays within a few units.
proof fn lemma_background_bounds(r: RayV)
    requires
        -(COORD_MAX as int) <= r.direction.y <= COORD_MAX as int,
    ensures
        bounded_v3(spec_background(r), 0x2_0000_0000),
{
    let t = crate::fixed::fmul(HALF as int, r.direction.y + SCALE as int);
    crate::fixed::lemma_fmul_bound(
        HALF as int,
        r.direction.y + SCALE as int,
        HALF as int,
        0x4001_0000,
    );
    crate::fixed::lemma_fmul_bound(SCALE as int, SCALE - t, SCALE as int, 0x2001_8000);
    crate::fixed::lemma_fmul_bound(32768, t, 32768, 0x2000_8000);
    crate::fixed::lemma_fmul_bound(45875, t, 65536, 0x2000_8000);
    crate::fixed::lemma_fmul_bound(65536, t, 65536, 0x2000_8000);
}

/// Bounds of the throughput-weighted background at a miss: the product stays
/// within the traceable radiance range.
proof fn lemma_miss_result_bounds(tp: Vec3, bg: Vec3)
    requires
        color_wf(tp),
        -0x2_0000_0000 <= bg.x <= 0x2_0000_0000,
        -0x2_0000_0000 <= bg.y <= 0x2_0000_0000,
        -0x2_0000_0000 <= bg.z <= 0x2_0000_0000,
    ensures
        ({
            let w = v3_mul_ew(tp, bg);
            &&& crate::vector::fits_v3(w)
            &&& bounded_v3(w, 0x2_0000_0000)
        }),
{
    crate::fixed::lemma_fmul_bound(tp.x, bg.x, SCALE as int, 0x2_0000_0000);
    crate::fixed::lemma_fmul_bound(tp.y, bg.y, SCALE as int, 0x2_0000_0000);
    crate::fixed::lemma_fmul_bound(tp.z, bg.z, SCALE as int, 0x2_0000_0000);
}

/// Bounds of one bounce's emission terms: emitted radiance is nonnegative and
/// capped by the emission power, and the attenuated throughput stays a color.
proof fn lemma_emission_bounds(m: MaterialV, tp: Vec3)
    requires
        crate::material::material_wf(m),
        color_wf(tp),
    ensures
        ({
            let emitted = v3_scale(m.emission_color, m.emission_power);
            let emission = v3_mul_ew(emitted, tp);
            &&& crate::vector::fits_v3(emitted)
            &&& 0 <= emitted.x <= EMISSION_MAX as int
            &&& 0 <= emitted.y <= EMISSION_MAX as int
            &&& 0 <= emitted.z <= EMISSION_MAX as int
            &&& crate::vector::fits_v3(emission)
            &&& 0 <= emission.x <= EMISSION_MAX as int
            &&& 0 <= emission.y <= EMISSION_MAX as int
            &&& 0 <= emission.z <= EMISSION_MAX as int
            &&& color_wf(v3_mul_ew(tp, m.color))
        }),
{
    lemma_unit_times_power(m.emission_color.x, m.emission_power);
    lemma_unit_times_power(m.emission_color.y, m.emission_power);
    lemma_unit_times_power(m.emission_color.z, m.emission_power);
    let emitted = v3_scale(m.emission_color, m.emission_power);
    lemma_unit_times_power(tp.x, emitted.x);
    lemma_unit_times_power(tp.y, emitted.y);
    lemma_unit_times_power(tp.z, emitted.z);
    crate::fixed::lemma_fmul_unit_interval(tp.x, m.color.x);
    crate::fixed::lemma_fmul_unit_interval(tp.y, m.color.y);
    crate::fixed::lemma_fmul_unit_interval(tp.z, m.color.z);
}

/// A channel in `[0, 1]` times a nonnegative power stays in `[0, power]`.
proof fn lemma_unit_times_power(c: int, p: int)
    requires
        0 <= c <= SCALE as int,
        0 <= p,
    ensures
        0 <= crate::fixed::fmul(c, p) <= p,
        0 <= crate::fixed::fmul(p, c) <= p,
{
    assert(0 <= c * p <= (SCALE as int) * p && c * p == p * c) by (nonlinear_arith)
        requires
            0 <= c <= SCALE as int,
            0 <= p,
    ;
    crate::fixed::lemma_tdiv_nonneg(c * p, SCALE as int);
    vstd::arithmetic::div_mod::lemma_div_is_ordered(c * p, (SCALE as int) * p, SCALE as int);
    vstd::arithmetic::mul::lemma_mul_is_commutative(SCALE as int, p);
    vstd::arithmetic::div_mod::lemma_div_multiples_vanish(p, SCALE as int);
}


} // verus!
