//! What a renderer is handed: the corners and triangle indices of merged
//! quads, and the records that name textures and GPU buffers.

use vstd::prelude::*;
use crate::geometry::{Axis, Face, IVec3, Point};
use crate::meshing::{quad_in_chunk, Quad};

verus! {

/// The kinds of GPU buffer.
#[derive(Debug, PartialEq, Eq, Structural, Clone, Copy, Hash)]
pub enum BufferType {
    Vertex,
    VertexArray,
    Element,
    Texture,
}

/// The name the graphics driver gave to a vertex array.
#[derive(Debug, PartialEq, Eq, Structural, Clone, Copy, Hash)]
pub struct VertexArrayObject {
    pub id: u32,
}

/// The name the graphics driver gave to a texture.
#[derive(Debug, PartialEq, Eq, Structural, Clone, Copy, Hash)]
pub struct TextureBufferObject {
    pub id: u32,
}

/// The name the graphics driver gave to an index buffer.
#[derive(Debug, PartialEq, Eq, Structural, Clone, Copy, Hash)]
pub struct ElementBufferObject {
    pub id: u32,
}

/// The name the graphics driver gave to a vertex buffer.
#[derive(Debug, PartialEq, Eq, Structural, Clone, Copy, Hash)]
pub struct VertexBufferObject {
    pub id: u32,
}

impl VertexArrayObject {
    /// The kind of buffer this names.
    pub fn buffer_type(&self) -> (r: BufferType)
        ensures
            r == BufferType::VertexArray,
    {
        BufferType::VertexArray
    }
}

impl TextureBufferObject {
    /// The kind of buffer this names.
    pub fn buffer_type(&self) -> (r: BufferType)
        ensures
            r == BufferType::Texture,
    {
        BufferType::Texture
    }
}

impl ElementBufferObject {
    /// The kind of buffer this names.
    pub fn buffer_type(&self) -> (r: BufferType)
        ensures
            r == BufferType::Element,
    {
        BufferType::Element
    }
}

impl VertexBufferObject {
    /// The kind of buffer this names.
    pub fn buffer_type(&self) -> (r: BufferType)
        ensures
            r == BufferType::Vertex,
    {
        BufferType::Vertex
    }
}

/// The six indices of the two triangles of a square, given the indices of
/// its four corners.
pub fn _create_square_indices(
    top_right: u32,
    top_left: u32,
    bottom_right: u32,
    bottom_left: u32,
) -> (r: Vec<u32>)
    ensures
        r@ == seq![top_right, bottom_right, top_left, bottom_right, top_left, bottom_left],
{
    let mut r: Vec<u32> = Vec::with_capacity(6);
    r.push(top_right);
    r.push(bottom_right);
    r.push(top_left);
    r.push(bottom_right);
    r.push(top_left);
    r.push(bottom_left);
    r
}

/// Whether the triangles of a face direction are wound counter-clockwise
/// when their corners are taken in the order of `quad_corner`: so they are
/// for -X, +Y and +Z, and clockwise for +X, -Y and -Z.
pub open spec fn winds_counter_clockwise(face: Face) -> bool {
    face is NegX || face is PosY || face is PosZ
}

/// The indices of the two triangles of a quad whose four corners are at
/// `start`, `start + 1`, `start + 2` and `start + 3` of the vertex list.
pub open spec fn quad_index_pattern(start: int, counter_clockwise: bool) -> Seq<int> {
    if counter_clockwise {
        seq![start, start + 1, start + 2, start + 1, start + 3, start + 2]
    } else {
        seq![start, start + 2, start + 1, start + 1, start + 2, start + 3]
    }
}

/// The in-plane axis along which the width of a quad runs.
pub open spec fn width_axis(normal: Axis) -> Axis {
    match normal {
        Axis::X => Axis::Z,
        Axis::Y => Axis::Z,
        Axis::Z => Axis::X,
    }
}

/// The in-plane axis along which the height of a quad runs.
pub open spec fn height_axis(normal: Axis) -> Axis {
    match normal {
        Axis::X => Axis::Y,
        Axis::Y => Axis::X,
        Axis::Z => Axis::Y,
    }
}

/// The point `d` steps from `p` along `axis`.
pub open spec fn moved_along(p: Point, axis: Axis, d: int) -> Point {
    match axis {
        Axis::X => (p.0 + d, p.1, p.2),
        Axis::Y => (p.0, p.1 + d, p.2),
        Axis::Z => (p.0, p.1, p.2 + d),
    }
}

/// Corner `i` of a quad, as a point of the lattice of cell corners. A cell
/// at local position `p` spans the cube from `p` to `p + (1, 1, 1)`. The
/// quad lies in the plane through the least corner of its cells for a face
/// that looks towards falling coordinates, and one step further along the
/// normal otherwise. Corner 0 has the least in-plane coordinates, corner 1
/// is across the width, corner 2 across the height, corner 3 across both.
pub open spec fn quad_corner(q: Quad, i: int) -> Point {
    let normal = q.face.spec_axis();
    let base = moved_along(
        q.minimum@,
        normal,
        if q.face.spec_is_positive() {
            1
        } else {
            0
        },
    );
    let across = moved_along(
        base,
        width_axis(normal),
        if i == 1 || i == 3 {
            q.width as int
        } else {
            0
        },
    );
    moved_along(
        across,
        height_axis(normal),
        if i == 2 || i == 3 {
            q.height as int
        } else {
            0
        },
    )
}

/// The place of an axis among X, Y, Z.
spec fn axis_place(axis: Axis) -> int {
    match axis {
        Axis::X => 0,
        Axis::Y => 1,
        Axis::Z => 2,
    }
}

/// The face at a place of the order -X, -Y, -Z, +X, +Y, +Z.
spec fn face_at(face_index: int) -> Face {
    if face_index == 0 {
        Face::NegX
    } else if face_index == 1 {
        Face::NegY
    } else if face_index == 2 {
        Face::NegZ
    } else if face_index == 3 {
        Face::PosX
    } else if face_index == 4 {
        Face::PosY
    } else {
        Face::PosZ
    }
}

/// Coordinate `j` of corner `i` of the quad of a face with the given least
/// cell, width and height.
spec fn corner_coordinate(
    face_index: int,
    minimum: Seq<u32>,
    width: int,
    height: int,
    i: int,
    j: int,
) -> int {
    let face = face_at(face_index);
    let normal = face.spec_axis();
    minimum[j] + if face.spec_is_positive() && j == axis_place(normal) {
        1int
    } else {
        0int
    } + if (i == 1 || i == 3) && j == axis_place(width_axis(normal)) {
        width
    } else {
        0int
    } + if (i == 2 || i == 3) && j == axis_place(height_axis(normal)) {
        height
    } else {
        0int
    }
}

/// Calls `block_mesh::OrientedBlockFace::quad_mesh_indices` on the face at
/// place `face_index` of `block_mesh::RIGHT_HANDED_Y_UP_CONFIG.faces`.
///
/// Not proved: the contract is taken on trust from that function's source.
/// It claims that the six indices are `start, start+1, start+2, start+1,
/// start+3, start+2` where the sign of the face's normal times the sign of
/// its axis permutation is positive, and `start, start+2, start+1, start+1,
/// start+2, start+3` otherwise; for the faces of this configuration the
/// product is positive for -X, +Y and +Z. The additions there overflow for
/// a `start` within 3 of `u32::MAX`, so such a `start` is not accepted.
#[verifier::external_body]
fn face_quad_indices(face_index: usize, start: u32) -> (r: [u32; 6])
    requires
        face_index < 6,
        start <= u32::MAX - 3,
    ensures
        forall|i: int|
            0 <= i < 6 ==> r@[i] == quad_index_pattern(
                start as int,
                winds_counter_clockwise(face_at(face_index as int)),
            )[i],
{
    block_mesh::RIGHT_HANDED_Y_UP_CONFIG.faces[face_index].quad_mesh_indices(start)
}

/// Calls `block_mesh::OrientedBlockFace::quad_corners` on the face at place
/// `face_index` of `block_mesh::RIGHT_HANDED_Y_UP_CONFIG.faces`, for the
/// quad with the given least cell, width and height.
///
/// Not proved: the contract is taken on trust from that function's source.
/// It claims that corner 0 is the least cell, moved one step along the
/// normal when the face looks towards growing coordinates; that corner 1 is
/// corner 0 moved by the width along the face's second axis, corner 2 is
/// corner 0 moved by the height along its third axis, and corner 3 is moved
/// by both. In this configuration the second and third axes are Z and Y for
/// the X faces, Z and X for the Y faces, X and Y for the Z faces. The sums
/// there are taken in `u32`, so only quads whose sums fit are accepted.
#[verifier::external_body]
fn face_quad_corners(face_index: usize, minimum: [u32; 3], width: u32, height: u32) -> (r: [[u32;
    3]; 4])
    requires
        face_index < 6,
        forall|j: int| 0 <= j < 3 ==> minimum@[j] + 1 + width + height <= u32::MAX,
    ensures
        forall|i: int, j: int|
            0 <= i < 4 && 0 <= j < 3 ==> (#[trigger] r@[i]@[j]) == corner_coordinate(
                face_index as int,
                minimum@,
                width as int,
                height as int,
                i,
                j,
            ),
{
    let quad = block_mesh::UnorientedQuad { minimum, width, height };
    let c = block_mesh::RIGHT_HANDED_Y_UP_CONFIG.faces[face_index].quad_corners(&quad);
    [c[0].to_array(), c[1].to_array(), c[2].to_array(), c[3].to_array()]
}

impl Quad {
    /// Whether the quad has at least one cell and all its cells are cells
    /// of the chunk.
    pub fn is_in_chunk(&self) -> (r: bool)
        ensures
            r == quad_in_chunk(*self),
    {
        if !self.minimum.is_local() || self.width < 1 || self.height < 1 || self.width > 16
            || self.height > 16 {
            return false;
        }
        let (u, v): (i32, i32) = match self.face.axis() {
            Axis::X => (self.minimum.z, self.minimum.y),
            Axis::Y => (self.minimum.z, self.minimum.x),
            Axis::Z => (self.minimum.x, self.minimum.y),
        };
        u + self.width as i32 <= 16 && v + self.height as i32 <= 16
    }

    /// The four corners of the quad on the lattice of cell corners, in the
    /// order of `quad_corner`. `None` exactly when the quad does not lie in
    /// the chunk.
    pub fn corners(&self) -> (r: Option<[IVec3; 4]>)
        ensures
            quad_in_chunk(*self) ==> r is Some && forall|i: int|
                0 <= i < 4 ==> (#[trigger] r->0@[i])@ == quad_corner(*self, i),
            !quad_in_chunk(*self) ==> r is None,
    {
        if !self.is_in_chunk() {
            return None;
        }
        let minimum: [u32; 3] = [
            self.minimum.x as u32,
            self.minimum.y as u32,
            self.minimum.z as u32,
        ];
        let c = face_quad_corners(self.face.index(), minimum, self.width, self.height);
        let c0 = c[0];
        let c1 = c[1];
        let c2 = c[2];
        let c3 = c[3];
        let corners = [
            IVec3 { x: c0[0] as i32, y: c0[1] as i32, z: c0[2] as i32 },
            IVec3 { x: c1[0] as i32, y: c1[1] as i32, z: c1[2] as i32 },
            IVec3 { x: c2[0] as i32, y: c2[1] as i32, z: c2[2] as i32 },
            IVec3 { x: c3[0] as i32, y: c3[1] as i32, z: c3[2] as i32 },
        ];
        Some(corners)
    }

    /// The indices of the two triangles of the quad, when its four corners
    /// stand at `start` and the three places after it in the vertex list.
    /// `None` exactly when `start + 3` does not fit in `u32`.
    pub fn indices(&self, start: u32) -> (r: Option<[u32; 6]>)
        ensures
            start + 3 <= u32::MAX ==> r is Some && forall|i: int|
                0 <= i < 6 ==> (#[trigger] r->0@[i]) == quad_index_pattern(
                    start as int,
                    winds_counter_clockwise(self.face),
                )[i],
            start + 3 > u32::MAX ==> r is None,
    {
        if start > u32::MAX - 3 {
            return None;
        }
        Some(face_quad_indices(self.face.index(), start))
    }
}

/// Entry `i` of the index list of a mesh whose quad `k` has its corners at
/// places `4k` to `4k + 3` of the vertex list.
pub open spec fn mesh_index(quads: Seq<Quad>, i: int) -> int {
    quad_index_pattern(4 * (i / 6), winds_counter_clockwise(quads[i / 6].face))[i % 6]
}

/// The triangle indices of a list of quads: six per quad, in the order of
/// the quads, quad `k` pointing at the vertices `4k` to `4k + 3`. `None`
/// exactly when those vertex numbers do not all fit in `u32`.
pub fn mesh_indices(quads: &Vec<Quad>) -> (r: Option<Vec<u32>>)
    ensures
        4 * quads@.len() <= 0x1_0000_0000 ==> r is Some && r->0@.len() == 6 * quads@.len()
            && forall|i: int|
            0 <= i < 6 * quads@.len() ==> (#[trigger] r->0@[i]) == mesh_index(quads@, i),
        4 * quads@.len() > 0x1_0000_0000 ==> r is None,
{
    if quads.len() > 0x4000_0000 {
        return None;
    }
    let mut indices: Vec<u32> = Vec::new();
    let mut k: usize = 0;
    while k < quads.len()
        invariant
            k <= quads@.len(),
            quads@.len() <= 0x4000_0000,
            indices@.len() == 6 * k,
            forall|i: int| 0 <= i < 6 * k ==> (#[trigger] indices@[i]) == mesh_index(quads@, i),
        decreases quads@.len() - k,
    {
        let start: u32 = (4 * k) as u32;
        let six = face_quad_indices(quads[k].face.index(), start);
        indices.push(six[0]);
        indices.push(six[1]);
        indices.push(six[2]);
        indices.push(six[3]);
        indices.push(six[4]);
        indices.push(six[5]);
        k += 1;
    }
    Some(indices)
}

/// The corners of a list of quads: four per quad, in the order of the quads
/// and, within a quad, of `quad_corner`. `None` exactly when some quad does
/// not lie in the chunk.
pub fn mesh_corners(quads: &Vec<Quad>) -> (r: Option<Vec<IVec3>>)
    ensures
        (forall|k: int| 0 <= k < quads@.len() ==> quad_in_chunk(#[trigger] quads@[k])) ==> r is Some
            && r->0@.len() == 4 * quads@.len() && forall|i: int|
            0 <= i < 4 * quads@.len() ==> (#[trigger] r->0@[i])@ == quad_corner(
                quads@[i / 4],
                i % 4,
            ),
        (exists|k: int| 0 <= k < quads@.len() && !quad_in_chunk(#[trigger] quads@[k])) ==> r is None,
{
    let mut corners: Vec<IVec3> = Vec::new();
    let mut k: usize = 0;
    while k < quads.len()
        invariant
            k <= quads@.len(),
            corners@.len() == 4 * k,
            forall|j: int| 0 <= j < k ==> quad_in_chunk(#[trigger] quads@[j]),
            forall|i: int|
                0 <= i < 4 * k ==> (#[trigger] corners@[i])@ == quad_corner(quads@[i / 4], i % 4),
        decreases quads@.len() - k,
    {
        match quads[k].corners() {
            Some(four) => {
                corners.push(four[0]);
                corners.push(four[1]);
                corners.push(four[2]);
                corners.push(four[3]);
            },
            None => {
                return None;
            },
        }
        k += 1;
    }
    Some(corners)
}

/// What a texture is used for when a mesh is drawn.
#[derive(Debug, PartialEq, Eq, Structural, Clone, Copy, Hash)]
pub enum TextureKind {
    Diffuse,
    Specular,
    Normal,
    Height,
}

/// A texture of a mesh: the name the graphics driver gave it, the name of
/// its use, and the file it came from.
#[derive(Debug, Clone, PartialEq, Eq)]
pub struct Texture {
    pub id: u32,
    pub type_: String,
    pub path: String,
}

/// The use that a name of a use stands for.
pub open spec fn kind_named(name: Seq<char>) -> Option<TextureKind> {
    if name == "texture_diffuse"@ {
        Some(TextureKind::Diffuse)
    } else if name == "texture_specular"@ {
        Some(TextureKind::Specular)
    } else if name == "texture_normal"@ {
        Some(TextureKind::Normal)
    } else if name == "texture_height"@ {
        Some(TextureKind::Height)
    } else {
        None
    }
}

/// How many of the first `n` textures have the given use.
pub open spec fn textures_of_kind(textures: Seq<Texture>, kind: TextureKind, n: int) -> int
    decreases n,
{
    if n <= 0 {
        0
    } else {
        textures_of_kind(textures, kind, n - 1) + if kind_named(textures[n - 1].type_@) == Some(
            kind,
        ) {
            1int
        } else {
            0int
        }
    }
}

impl Texture {
    /// The use of the texture, if its name of a use is a known one.
    pub fn kind(&self) -> (r: Option<TextureKind>)
        ensures
            r == kind_named(self.type_@),
    {
        if self.type_ == "texture_diffuse".to_owned() {
            Some(TextureKind::Diffuse)
        } else if self.type_ == "texture_specular".to_owned() {
            Some(TextureKind::Specular)
        } else if self.type_ == "texture_normal".to_owned() {
            Some(TextureKind::Normal)
        } else if self.type_ == "texture_height".to_owned() {
            Some(TextureKind::Height)
        } else {
            None
        }
    }
}

/// For each texture of a mesh, its number among the textures of the same
/// use, counted from 1 in the order of the list: the number that follows the
/// name of the use in the name of the shader's sampler. `None` exactly when
/// some texture has an unknown name of a use, or there are more textures
/// than `u32` can count.
pub fn texture_numbers(textures: &Vec<Texture>) -> (r: Option<Vec<u32>>)
    ensures
        match r {
            Some(numbers) => {
                &&& textures@.len() <= u32::MAX
                &&& numbers@.len() == textures@.len()
                &&& forall|i: int|
                    0 <= i < textures@.len() ==> kind_named(
                        (#[trigger] textures@[i]).type_@,
                    ) is Some
                &&& forall|i: int|
                    0 <= i < textures@.len() ==> (#[trigger] numbers@[i]) == textures_of_kind(
                        textures@,
                        kind_named(textures@[i].type_@)->0,
                        i + 1,
                    )
            },
            None => textures@.len() > u32::MAX || exists|i: int|
                0 <= i < textures@.len() && kind_named((#[trigger] textures@[i]).type_@) is None,
        },
{
    if textures.len() > 0xffff_ffff {
        return None;
    }
    let mut diffuse: u32 = 0;
    let mut specular: u32 = 0;
    let mut normal: u32 = 0;
    let mut height: u32 = 0;
    let mut numbers: Vec<u32> = Vec::with_capacity(textures.len());
    let mut i: usize = 0;
    while i < textures.len()
        invariant
            i <= textures@.len(),
            textures@.len() <= u32::MAX,
            numbers@.len() == i,
            diffuse == textures_of_kind(textures@, TextureKind::Diffuse, i as int),
            specular == textures_of_kind(textures@, TextureKind::Specular, i as int),
            normal == textures_of_kind(textures@, TextureKind::Normal, i as int),
            height == textures_of_kind(textures@, TextureKind::Height, i as int),
            diffuse <= i,
            specular <= i,
            normal <= i,
            height <= i,
            forall|j: int| 0 <= j < i ==> kind_named((#[trigger] textures@[j]).type_@) is Some,
            forall|j: int|
                0 <= j < i ==> (#[trigger] numbers@[j]) == textures_of_kind(
                    textures@,
                    kind_named(textures@[j].type_@)->0,
                    j + 1,
                ),
        decreases textures@.len() - i,
    {
        let number: u32 = match textures[i].kind() {
            Some(TextureKind::Diffuse) => {
                diffuse += 1;
                diffuse
            },
            Some(TextureKind::Specular) => {
                specular += 1;
                specular
            },
            Some(TextureKind::Normal) => {
                normal += 1;
                normal
            },
            Some(TextureKind::Height) => {
                height += 1;
                height
            },
            None => {
                return None;
            },
        };
        assert(number == textures_of_kind(
            textures@,
            kind_named(textures@[i as int].type_@)->0,
            i + 1,
        ));
        numbers.push(number);
        i += 1;
    }
    Some(numbers)
}

} // verus!
