//! Terrain planes: their description and the pipeline that turns it into
//! a mesh.

use vstd::prelude::*;
use crate::colors::Colors;
use crate::geometry::AABB;
use crate::grid::{GridError, MeshBuffers, RectPlane, plane_mesh};
use crate::modifiers::{Modifier, ModifierData};
use crate::pipeline::{HeightExtrema, all_resolved, are_extrema, area_pass, collect_edges, color_pass,
    heights_of, lemma_same_stages_do_the_same, lemma_threads_agree, point_pass, stages_area_spec,
    stages_edges_spec, stages_point_spec, stages_same};
use crate::scalar::floor_div;

verus! {

/// The description of one terrain plane.
#[derive(Debug)]
pub struct PlaneData {
    pub name: String,
    /// Where the plane stands in the world.
    pub loc: [i64; 3],
    /// The cuts of the grid: across the width (along x), and across the
    /// length (along z).
    pub subdivisions: (u32, u32),
    /// The extents along x and along z.
    pub dims: (i64, i64),
    pub color: Colors,
    /// The stages that shape the heights, in the order in which they run.
    pub modifiers: Vec<ModifierData>,
    pub active: bool,
}

/// Why a plane cannot be built.
#[derive(Debug, Clone, Copy, PartialEq, Eq, Structural)]
pub enum ConfigError {
    /// The grid that the plane asks for cannot be built.
    Grid(GridError),
    /// The stage with this index names a region that ends before it
    /// starts, or a negative reach.
    InconsistentStage(usize),
}

/// The planes of a scene.
#[derive(Debug)]
pub struct Planes {
    pub planes: Vec<PlaneData>,
}

impl Clone for PlaneData {
    /// A description that says the same.
    fn clone(&self) -> (r: Self)
        ensures
            self.same_as(r),
    {
        let mut modifiers: Vec<ModifierData> = Vec::new();
        let mut j: usize = 0;
        while j < self.modifiers.len()
            invariant
                j <= self.modifiers@.len(),
                modifiers@.len() == j,
                forall|k: int| 0 <= k < j ==> (#[trigger] self.modifiers@[k]).same_as(modifiers@[k]),
            decreases self.modifiers@.len() - j,
        {
            modifiers.push(self.modifiers[j].clone());
            j = j + 1;
        }
        PlaneData {
            name: self.name.clone(),
            loc: self.loc,
            subdivisions: self.subdivisions,
            dims: self.dims,
            color: self.color.clone(),
            modifiers,
            active: self.active,
        }
    }
}

impl Clone for Planes {
    /// Descriptions that say the same, in the same order.
    fn clone(&self) -> (r: Self)
        ensures
            r.planes@.len() == self.planes@.len(),
            forall|k: int| 0 <= k < self.planes@.len() ==> (#[trigger] self.planes@[k]).same_as(r.planes@[k]),
    {
        let mut planes: Vec<PlaneData> = Vec::new();
        let mut j: usize = 0;
        while j < self.planes.len()
            invariant
                j <= self.planes@.len(),
                planes@.len() == j,
                forall|k: int| 0 <= k < j ==> (#[trigger] self.planes@[k]).same_as(planes@[k]),
            decreases self.planes@.len() - j,
        {
            planes.push(self.planes[j].clone());
            j = j + 1;
        }
        Planes { planes }
    }
}

impl PlaneData {
    /// The grid that the plane asks for.
    pub open spec fn rect_spec(self) -> RectPlane {
        RectPlane {
            width: self.dims.0,
            length: self.dims.1,
            x_subdivisions: self.subdivisions.0,
            z_subdivisions: self.subdivisions.1,
        }
    }

    /// The bounds of the plane around its own origin.
    pub open spec fn aabb_spec(self) -> AABB {
        AABB {
            min_x: (-(self.dims.0 / 2)) as i64,
            max_x: (self.dims.0 / 2) as i64,
            min_z: (-(self.dims.1 / 2)) as i64,
            max_z: (self.dims.1 / 2) as i64,
        }
    }

    /// Whether the plane can be built: its grid can, and every stage is
    /// well formed.
    pub open spec fn wf(self) -> bool {
        &&& self.rect_spec().wf()
        &&& forall|j: int| 0 <= j < self.modifiers@.len() ==> (#[trigger] self.modifiers@[j]).wf()
    }

    /// Whether `error` is what stands in the way of building the plane:
    /// the grid comes first, then the first stage that is not well formed.
    pub open spec fn is_refused_with(self, error: ConfigError) -> bool {
        match error {
            ConfigError::Grid(GridError::EmptyExtent) => self.dims.0 <= 0 || self.dims.1 <= 0,
            ConfigError::Grid(GridError::TooManyVertices) => {
                &&& self.dims.0 > 0
                &&& self.dims.1 > 0
                &&& self.rect_spec().vertex_count() > u32::MAX
            },
            ConfigError::InconsistentStage(k) => {
                &&& self.rect_spec().wf()
                &&& k < self.modifiers@.len()
                &&& !self.modifiers@[k as int].wf()
                &&& forall|j: int| 0 <= j < k ==> (#[trigger] self.modifiers@[j]).wf()
            },
        }
    }

    /// Whether the two descriptions say the same, field by field.
    pub open spec fn same_as(self, other: PlaneData) -> bool {
        &&& self.name@ == other.name@
        &&& self.loc == other.loc
        &&& self.subdivisions == other.subdivisions
        &&& self.dims == other.dims
        &&& self.color.data@ == other.color.data@
        &&& stages_same(self.modifiers@, other.modifiers@)
        &&& self.active == other.active
    }

    /// The height of a vertex at `(x, z)` with the height `height` once
    /// every stage has given its height.
    pub open spec fn point_height_spec(self, x: int, height: int, z: int) -> int {
        stages_point_spec(self.modifiers@, self.aabb_spec(), self.loc[0], self.loc[2], x, height, z)
    }

    /// The boundaries that the stages leave in the plane.
    pub open spec fn edges_spec(self) -> Seq<crate::geometry::EdgeLine> {
        stages_edges_spec(self.modifiers@, self.aabb_spec(), self.loc[0], self.loc[2])
    }

    /// The finished height of a vertex at `(x, z)` with the height
    /// `height`: every stage gives its height, in order, and then every
    /// stage runs its area pass, in order, with the boundaries of all.
    pub open spec fn height_spec(self, x: int, height: int, z: int) -> int {
        stages_area_spec(self.modifiers@, self.edges_spec(), x, self.point_height_spec(x, height, z), z)
    }

    /// Whether `mesh` is the finished mesh of the plane: laid out as its
    /// grid, every height as the stages leave a height of zero, every
    /// colour by its height.
    pub open spec fn is_finished(self, mesh: MeshBuffers) -> bool {
        &&& self.rect_spec().lays_out(mesh)
        &&& mesh.colors@.len() == mesh.positions@.len()
        &&& forall|k: int|
            0 <= k < mesh.positions@.len() ==> (#[trigger] mesh.positions@[k])[1] == self.height_spec(
                mesh.positions@[k][0] as int,
                0,
                mesh.positions@[k][2] as int,
            )
        &&& forall|k: int, c: int|
            0 <= k < mesh.positions@.len() && 0 <= c < 4 ==> (#[trigger] mesh.colors@[k][c])
                == self.color.channel_spec(mesh.positions@[k][1] as int, c)
    }

    /// Tells whether the plane can be built, and if not, what stands in
    /// the way.
    pub fn validate(&self) -> (r: Result<(), ConfigError>)
        ensures
            r.is_ok() == self.wf(),
            r.is_err() ==> self.is_refused_with(r.unwrap_err()),
    {
        let rect = RectPlane {
            width: self.dims.0,
            length: self.dims.1,
            x_subdivisions: self.subdivisions.0,
            z_subdivisions: self.subdivisions.1,
        };
        match rect.validate() {
            Err(e) => {
                return Err(ConfigError::Grid(e));
            },
            Ok(()) => {},
        }
        let mut k: usize = 0;
        while k < self.modifiers.len()
            invariant
                self.rect_spec().wf(),
                k <= self.modifiers@.len(),
                forall|j: int| 0 <= j < k ==> (#[trigger] self.modifiers@[j]).wf(),
            decreases self.modifiers@.len() - k,
        {
            if !self.modifiers[k].is_consistent() {
                return Err(ConfigError::InconsistentStage(k));
            }
            k = k + 1;
        }
        Ok(())
    }

    /// Binds every stage of the plane to it.
    pub fn bind_modifiers(&self) -> (r: Vec<Modifier>)
        ensures
            all_resolved(self.modifiers@, self.aabb_spec(), self.loc[0], self.loc[2], r@),
    {
        let mut mods: Vec<Modifier> = Vec::new();
        let mut j: usize = 0;
        while j < self.modifiers.len()
            invariant
                j <= self.modifiers@.len(),
                mods@.len() == j,
                forall|k: int|
                    0 <= k < j ==> (#[trigger] self.modifiers@[k]).resolves_to(
                        self.aabb_spec(),
                        self.loc[0],
                        self.loc[2],
                        mods@[k],
                    ),
            decreases self.modifiers@.len() - j,
        {
            let m = self.modifiers[j].set(self);
            mods.push(m);
            j = j + 1;
        }
        mods
    }

    /// Shapes and colours `mesh`: every vertex keeps its place and gets
    /// its finished height, and the colours are made anew from the
    /// heights. Answers with the least and the greatest height that the
    /// vertices had between the two passes.
    pub fn apply(&self, mesh: &mut MeshBuffers) -> (r: HeightExtrema)
        ensures
            final(mesh).normals@ == old(mesh).normals@,
            final(mesh).uvs@ == old(mesh).uvs@,
            final(mesh).indices@ == old(mesh).indices@,
            final(mesh).positions@.len() == old(mesh).positions@.len(),
            forall|i: int|
                0 <= i < old(mesh).positions@.len() ==> {
                    &&& (#[trigger] final(mesh).positions@[i])[0] == old(mesh).positions@[i][0]
                    &&& final(mesh).positions@[i][2] == old(mesh).positions@[i][2]
                    &&& final(mesh).positions@[i][1] == self.height_spec(
                        old(mesh).positions@[i][0] as int,
                        old(mesh).positions@[i][1] as int,
                        old(mesh).positions@[i][2] as int,
                    )
                },
            final(mesh).colors@.len() == old(mesh).positions@.len(),
            forall|i: int, c: int|
                0 <= i < old(mesh).positions@.len() && 0 <= c < 4 ==> (#[trigger] final(mesh).colors@[i][c])
                    == self.color.channel_spec(final(mesh).positions@[i][1] as int, c),
            are_extrema(
                Seq::new(
                    old(mesh).positions@.len(),
                    |i: int|
                        self.point_height_spec(
                            old(mesh).positions@[i][0] as int,
                            old(mesh).positions@[i][1] as int,
                            old(mesh).positions@[i][2] as int,
                        ),
                ),
                r,
            ),
    {
        let mut v_pos: Vec<[i64; 3]> = Vec::new();
        std::mem::swap(&mut v_pos, &mut mesh.positions);
        let ghost before = v_pos@;
        let mut mods = self.bind_modifiers();
        let plane = self.get_aabb();
        proof {
            lemma_threads_agree(self.modifiers@, plane, self.loc[0], self.loc[2], mods@);
        }
        let extrema = point_pass(&mods, &mut v_pos, &self.loc);
        proof {
            assert(heights_of(v_pos@) =~= Seq::new(
                before.len(),
                |i: int|
                    self.point_height_spec(before[i][0] as int, before[i][1] as int, before[i][2] as int),
            ));
        }
        let edges = collect_edges(&mods, &plane);
        area_pass(&mut mods, &mut v_pos, &edges);
        let v_clr = color_pass(&self.color, &v_pos, &extrema);
        mesh.positions = v_pos;
        mesh.colors = v_clr;
        extrema
    }

    /// Builds the finished mesh of the plane, or tells what stands in the
    /// way.
    pub fn build(&self) -> (r: Result<MeshBuffers, ConfigError>)
        ensures
            r.is_ok() == self.wf(),
            r.is_err() ==> self.is_refused_with(r.unwrap_err()),
            r.is_ok() ==> self.is_finished(r.unwrap()),
    {
        match self.validate() {
            Err(e) => Err(e),
            Ok(()) => {
                let mut mesh = plane_mesh(&self.subdivisions, &self.dims);
                let _extrema = self.apply(&mut mesh);
                Ok(mesh)
            },
        }
    }

    /// The bounds of the plane around its own origin.
    pub fn get_aabb(&self) -> (r: AABB)
        ensures
            r == self.aabb_spec(),
            self.dims.0 >= 0 && self.dims.1 >= 0 ==> r.wf(),
    {
        let half_x: i64 = floor_div(self.dims.0 as i128, 2) as i64;
        let half_z: i64 = floor_div(self.dims.1 as i128, 2) as i64;
        AABB { min_x: -half_x, max_x: half_x, min_z: -half_z, max_z: half_z }
    }

    /// A plane of twenty units by twenty, uncut, at the origin of the
    /// world, with no stages and no colour ranges.
    pub fn new() -> (r: PlaneData)
        ensures
            r.name@ == "Default Plane"@,
            r.loc[0] == 0 && r.loc[1] == 0 && r.loc[2] == 0,
            r.dims == (20_000_000i64, 20_000_000i64),
            r.subdivisions == (0u32, 0u32),
            r.color.data@.len() == 0,
            r.modifiers@.len() == 0,
            r.active,
    {
        PlaneData {
            name: "Default Plane".to_owned(),
            loc: [0, 0, 0],
            dims: (20_000_000, 20_000_000),
            subdivisions: (0, 0),
            color: Colors::new(),
            modifiers: Vec::new(),
            active: true,
        }
    }
}

/// A plane without stages leaves every height as it is.
pub proof fn no_stages_is_identity(pd: PlaneData, x: int, height: int, z: int)
    requires
        pd.modifiers@.len() == 0,
    ensures
        pd.height_spec(x, height, z) == height,
{
}

/// Rebuilding is repeatable: two descriptions that say the same have the
/// same finished mesh, vertex by vertex, colour by colour and triangle by
/// triangle.
pub proof fn equal_descriptions_build_alike(p: PlaneData, q: PlaneData, a: MeshBuffers, b: MeshBuffers)
    requires
        p.same_as(q),
        p.is_finished(a),
        q.is_finished(b),
    ensures
        a.positions@ == b.positions@,
        a.normals@ == b.normals@,
        a.uvs@ == b.uvs@,
        a.colors@ == b.colors@,
        a.indices@ == b.indices@,
{
    let n = p.rect_spec().vertex_count();
    lemma_same_stages_do_the_same(p.modifiers@, q.modifiers@, p.aabb_spec(), p.loc[0], p.loc[2]);
    assert forall|k: int| 0 <= k < n implies a.positions@[k] == b.positions@[k] by {
        assert(a.positions@[k][0] == b.positions@[k][0]);
        let x = a.positions@[k][0] as int;
        let z = a.positions@[k][2] as int;
        assert(p.point_height_spec(x, 0, z) == q.point_height_spec(x, 0, z));
        assert(p.height_spec(x, 0, z) == q.height_spec(x, 0, z));
        assert(a.positions@[k][1] == b.positions@[k][1]);
        assert(a.positions@[k] =~= b.positions@[k]);
    }
    assert forall|k: int| 0 <= k < n implies a.normals@[k] == b.normals@[k] by {
        assert(a.normals@[k][0] == b.normals@[k][0]);
        assert(a.normals@[k] =~= b.normals@[k]);
    }
    assert forall|k: int| 0 <= k < n implies a.uvs@[k] == b.uvs@[k] by {
        assert(a.uvs@[k][0] == b.uvs@[k][0]);
        assert(a.uvs@[k] =~= b.uvs@[k]);
    }
    assert forall|k: int| 0 <= k < n implies a.colors@[k] == b.colors@[k] by {
        assert(a.positions@[k] == b.positions@[k]);
        assert forall|c: int| 0 <= c < 4 implies a.colors@[k][c] == b.colors@[k][c] by {}
        assert(a.colors@[k] =~= b.colors@[k]);
    }
    assert(a.positions@ =~= b.positions@);
    assert(a.normals@ =~= b.normals@);
    assert(a.uvs@ =~= b.uvs@);
    assert(a.colors@ =~= b.colors@);
    assert(a.indices@ =~= b.indices@);
}

} // verus!
