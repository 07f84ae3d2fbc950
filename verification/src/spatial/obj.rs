//! Meshes read from Wavefront models: each geometry of a model becomes a
//! vertex buffer without repeated vertices and an index buffer over it.
//!
//! The numbers of a model stay where the parser put them. A vertex of a
//! geometry is kept as the places of its position and of its normal in the
//! arrays of the object.

use std::collections::HashMap;
use vstd::prelude::*;
use vstd::string::StringSliceAdditionalSpecFns;
use crate::names::occurs;
use crate::spatial::VertexIndex;
use wavefront_obj::mtl::MtlSet;
use wavefront_obj::obj::ObjSet;
use wavefront_obj::ParseError;

verus! {

/// A corner of a shape: the place of its position, of its texture
/// coordinates and of its normal in the arrays of the object.
pub type VTNIndex = (usize, Option<usize>, Option<usize>);

/// A shape of a model.
#[derive(Clone, Copy, Debug, PartialEq, Eq)]
pub enum Primitive {
    Point(VTNIndex),
    Line(VTNIndex, VTNIndex),
    Triangle(VTNIndex, VTNIndex, VTNIndex),
}

/// A vertex of a geometry: the places of its position and of its normal in
/// the arrays of the object.
#[derive(Clone, Copy, Debug, PartialEq, Eq, Structural)]
pub struct VertexSource {
    pub position: usize,
    pub normal: usize,
}

/// Whether a shape can be loaded: it is a triangle and each of its corners
/// has a normal.
pub open spec fn loadable(shape: Primitive) -> bool {
    match shape {
        Primitive::Triangle(a, b, c) => a.2 is Some && b.2 is Some && c.2 is Some,
        _ => false,
    }
}

/// The corners of triangles, three for each, in the order of the shapes.
pub open spec fn corners_of(shapes: Seq<Primitive>) -> Seq<VTNIndex>
    decreases shapes.len(),
{
    if shapes.len() == 0 {
        Seq::empty()
    } else {
        match shapes.last() {
            Primitive::Triangle(a, b, c) => corners_of(shapes.drop_last()).push(a).push(b).push(c),
            _ => corners_of(shapes.drop_last()),
        }
    }
}

/// The corners without repetition, each where it first occurs.
pub open spec fn distinct(corners: Seq<VTNIndex>) -> Seq<VTNIndex>
    decreases corners.len(),
{
    if corners.len() == 0 {
        Seq::empty()
    } else {
        let before = distinct(corners.drop_last());
        if before.contains(corners.last()) {
            before
        } else {
            before.push(corners.last())
        }
    }
}

/// The vertex of a corner that has a normal.
pub open spec fn vertex_of(corner: VTNIndex) -> VertexSource {
    VertexSource { position: corner.0, normal: corner.2->Some_0 }
}

/// The vertices of corners that have normals, one for one.
pub open spec fn vertices_of(corners: Seq<VTNIndex>) -> Seq<VertexSource> {
    Seq::new(corners.len(), |i: int| vertex_of(corners[i]))
}

/// A place cut to the width of a vertex index.
pub open spec fn as_index(place: int) -> VertexIndex {
    #[verifier::truncate]
    (place as VertexIndex)
}

/// The place of corner `k` among the distinct corners.
pub open spec fn place_of(corners: Seq<VTNIndex>, k: int) -> int {
    distinct(corners).index_of(corners[k])
}

/// Whether the shape at `i` is the first that cannot be loaded.
pub open spec fn is_first_unloadable(shapes: Seq<Primitive>, i: int) -> bool {
    &&& 0 <= i < shapes.len()
    &&& !loadable(shapes[i])
    &&& forall|j: int| 0 <= j < i ==> loadable(#[trigger] shapes[j])
}

/// What is said of a shape that cannot be loaded.
pub open spec fn failure_text(shape: Primitive) -> Seq<char> {
    match shape {
        Primitive::Triangle(_, _, _) => "missing normal for a vertex"@,
        _ => "unsupported non-triangle shape"@,
    }
}

/// The distinct corners hold each corner, and none twice.
pub proof fn lemma_distinct(corners: Seq<VTNIndex>)
    ensures
        distinct(corners).no_duplicates(),
        distinct(corners).len() <= corners.len(),
        forall|x: VTNIndex| distinct(corners).contains(x) <==> corners.contains(x),
    decreases corners.len(),
{
    if corners.len() > 0 {
        let shorter = corners.drop_last();
        let before = distinct(shorter);
        lemma_distinct(shorter);
        assert forall|x: VTNIndex| distinct(corners).contains(x) <==> corners.contains(x) by {
            if corners.contains(x) {
                let at = choose|at: int| 0 <= at < corners.len() && corners[at] == x;
                if at < shorter.len() {
                    assert(shorter[at] == x);
                    assert(shorter.contains(x));
                    assert(before.contains(x));
                    let place = choose|place: int| 0 <= place < before.len() && before[place] == x;
                    assert(distinct(corners)[place] == x);
                } else {
                    if before.contains(x) {
                    } else {
                        assert(distinct(corners)[before.len() as int] == x);
                    }
                }
            }
            if distinct(corners).contains(x) {
                let place = choose|place: int|
                    0 <= place < distinct(corners).len() && distinct(corners)[place] == x;
                if place < before.len() {
                    assert(before[place] == x);
                    assert(shorter.contains(x));
                    let at = choose|at: int| 0 <= at < shorter.len() && shorter[at] == x;
                    assert(corners[at] == x);
                } else {
                    assert(corners[corners.len() - 1] == x);
                }
            }
        }
    }
}

/// Each corner stands at its place among the distinct corners, and at no
/// other.
pub proof fn lemma_place_of(corners: Seq<VTNIndex>, k: int)
    requires
        0 <= k < corners.len(),
    ensures
        0 <= place_of(corners, k) < distinct(corners).len(),
        distinct(corners)[place_of(corners, k)] == corners[k],
        forall|i: int|
            0 <= i < distinct(corners).len() && distinct(corners)[i] == corners[k] ==> i
                == place_of(corners, k),
{
    lemma_distinct(corners);
    assert(corners.contains(corners[k]));
    assert(distinct(corners).contains(corners[k]));
    let unique = distinct(corners);
    let witness = choose|i: int| 0 <= i < unique.len() && unique[i] == corners[k];
    assert(0 <= witness < unique.len() && unique[witness] == corners[k]);
}

/// Whether `buckets` leads to every corner of `keys`: the place of each
/// corner stands in the bucket of the position of the corner, and a bucket
/// holds nothing but places of corners.
pub open spec fn leads_to(buckets: Map<usize, Vec<usize>>, keys: Seq<VTNIndex>) -> bool {
    &&& forall|m: int|
        0 <= m < keys.len() ==> buckets.contains_key((#[trigger] keys[m]).0)
            && buckets[keys[m].0]@.contains(m as usize)
    &&& forall|position: usize, j: int|
        buckets.contains_key(position) && 0 <= j < buckets[position]@.len() ==> (
        #[trigger] buckets[position]@[j]) < keys.len()
}

/// Where `corner` stands in `keys`, if it does. Only the corners at the
/// position of `corner` are looked at.
fn find_corner(
    keys: &Vec<VTNIndex>,
    buckets: &HashMap<usize, Vec<usize>>,
    corner: VTNIndex,
) -> (found: Option<usize>)
    requires
        leads_to(buckets@, keys@),
    ensures
        match found {
            Some(i) => i < keys@.len() && keys@[i as int] == corner,
            None => !keys@.contains(corner),
        },
{
    broadcast use vstd::std_specs::hash::group_hash_axioms;

    match buckets.get(&corner.0) {
        Some(bucket) => {
            let mut j: usize = 0;
            while j < bucket.len()
                invariant
                    j <= bucket@.len(),
                    buckets@.contains_key(corner.0),
                    *bucket == buckets@[corner.0],
                    leads_to(buckets@, keys@),
                    forall|k: int| 0 <= k < j ==> keys@[bucket@[k] as int] != corner,
                decreases bucket@.len() - j,
            {
                let place = bucket[j];
                assert(buckets@[corner.0]@[j as int] < keys@.len());
                if same_corner(keys[place], corner) {
                    return Some(place);
                }
                j += 1;
            }
            proof {
                if keys@.contains(corner) {
                    let m = choose|m: int| 0 <= m < keys@.len() && keys@[m] == corner;
                    assert(keys@.len() == keys.len());
                    let place = m as usize;
                    assert(buckets@[keys@[m].0]@.contains(place));
                    let k = choose|k: int| 0 <= k < bucket@.len() && bucket@[k] == place;
                    assert(keys@[bucket@[k] as int] != corner);
                }
            }
            None
        },
        None => {
            proof {
                if keys@.contains(corner) {
                    let m = choose|m: int| 0 <= m < keys@.len() && keys@[m] == corner;
                    assert(buckets@.contains_key(keys@[m].0));
                }
            }
            None
        },
    }
}

/// Takes `corner` as the next of `keys`, and its place into its bucket.
fn add_corner(keys: &mut Vec<VTNIndex>, buckets: &mut HashMap<usize, Vec<usize>>, corner: VTNIndex)
    requires
        leads_to(old(buckets)@, old(keys)@),
    ensures
        final(keys)@ == old(keys)@.push(corner),
        leads_to(final(buckets)@, final(keys)@),
{
    broadcast use vstd::std_specs::hash::group_hash_axioms;

    let place = keys.len();
    let mut bucket = match buckets.remove(&corner.0) {
        Some(bucket) => bucket,
        None => Vec::new(),
    };
    let ghost before = bucket@;
    bucket.push(place);
    keys.push(corner);
    buckets.insert(corner.0, bucket);
    proof {
        assert(buckets@[corner.0]@ == before.push(place));
        assert forall|m: int| 0 <= m < keys@.len() implies buckets@.contains_key(
            (#[trigger] keys@[m]).0,
        ) && buckets@[keys@[m].0]@.contains(m as usize) by {
            if m < place {
                assert(keys@[m] == old(keys)@[m]);
                assert(old(buckets)@[old(keys)@[m].0]@.contains(m as usize));
                if keys@[m].0 == corner.0 {
                    let k = choose|k: int| 0 <= k < before.len() && before[k] == m as usize;
                    assert(before.push(place)[k] == m as usize);
                }
            } else {
                assert(before.push(place)[before.len() as int] == place);
            }
        }
        assert forall|position: usize, j: int|
            buckets@.contains_key(position) && 0 <= j < buckets@[position]@.len() implies (
        #[trigger] buckets@[position]@[j]) < keys@.len() by {
            if position == corner.0 {
                if j < before.len() {
                    assert(old(buckets)@[position]@[j] < old(keys)@.len());
                }
            } else {
                assert(old(buckets)@[position]@[j] < old(keys)@.len());
            }
        }
    }
}

/// Whether two optional places are the same.
fn same_place(a: Option<usize>, b: Option<usize>) -> (same: bool)
    ensures
        same == (a == b),
{
    match (a, b) {
        (Some(x), Some(y)) => x == y,
        (None, None) => true,
        _ => false,
    }
}

/// Whether two corners are the same.
fn same_corner(a: VTNIndex, b: VTNIndex) -> (same: bool)
    ensures
        same == (a == b),
{
    a.0 == b.0 && same_place(a.1, b.1) && same_place(a.2, b.2)
}

/// The buffers of a geometry.
///
/// All shapes must be triangles whose corners have normals. Then the
/// vertices are the distinct corners, each where it first occurs, and the
/// indices name, for each corner of each triangle in turn, its vertex.
/// Else the first shape that is not so decides what is said: a triangle
/// lacks a normal, anything else is not supported.
///
/// An index is the place of its vertex cut to the width of `VertexIndex`.
pub fn index_geometry(shapes: &Vec<Primitive>) -> (result: Result<
    (Vec<VertexSource>, Vec<VertexIndex>),
    String,
>)
    ensures
        result is Ok <==> forall|i: int| 0 <= i < shapes@.len() ==> loadable(#[trigger] shapes@[i]),
        result matches Ok((vertices, indices)) ==> {
            &&& vertices@ == vertices_of(distinct(corners_of(shapes@)))
            &&& indices@.len() == corners_of(shapes@).len()
            &&& indices@.len() == 3 * shapes@.len()
            &&& forall|k: int|
                0 <= k < indices@.len() ==> indices@[k] == as_index(place_of(corners_of(shapes@), k))
            &&& vertices@.len() <= VertexIndex::MAX ==> forall|k: int|
                0 <= k < indices@.len() ==> (#[trigger] indices@[k]) < vertices@.len()
        },
        result matches Err(text) ==> exists|i: int|
            is_first_unloadable(shapes@, i) && text@ == failure_text(shapes@[i]),
{
    let mut keys: Vec<VTNIndex> = Vec::new();
    let mut buckets: HashMap<usize, Vec<usize>> = HashMap::new();
    let mut vertices: Vec<VertexSource> = Vec::new();
    let mut indices: Vec<VertexIndex> = Vec::new();
    let ghost mut places: Seq<int> = Seq::empty();
    let mut i: usize = 0;
    while i < shapes.len()
        invariant
            i <= shapes@.len(),
            forall|j: int| 0 <= j < i ==> loadable(#[trigger] shapes@[j]),
            keys@ == distinct(corners_of(shapes@.take(i as int))),
            leads_to(buckets@, keys@),
            forall|m: int| 0 <= m < keys@.len() ==> (#[trigger] keys@[m]).2 is Some,
            vertices@ == vertices_of(keys@),
            corners_of(shapes@.take(i as int)).len() == 3 * i,
            indices@.len() == 3 * i,
            places.len() == 3 * i,
            forall|k: int|
                0 <= k < places.len() ==> 0 <= #[trigger] places[k] < keys@.len()
                    && keys@[places[k]] == corners_of(shapes@.take(i as int))[k]
                    && indices@[k] == as_index(places[k]),
        decreases shapes@.len() - i,
    {
        let ghost done = shapes@.take(i as int);
        let ghost next = shapes@.take(i + 1);
        proof {
            assert(next.drop_last() =~= done);
            assert(next.last() == shapes@[i as int]);
        }
        match shapes[i] {
            Primitive::Triangle(a, b, c) => {
                let corners = [a, b, c];
                let ghost start = corners_of(done);
                let mut n: usize = 0;
                while n < 3
                    invariant
                        n <= 3,
                        i < shapes@.len(),
                        shapes@[i as int] == Primitive::Triangle(a, b, c),
                        forall|j: int| 0 <= j < i ==> loadable(#[trigger] shapes@[j]),
                        corners@ == seq![a, b, c],
                        forall|m: int| 0 <= m < n ==> (#[trigger] corners@[m]).2 is Some,
                        start.len() == 3 * i,
                        keys@ == distinct(start + corners@.take(n as int)),
                        leads_to(buckets@, keys@),
                        forall|m: int| 0 <= m < keys@.len() ==> (#[trigger] keys@[m]).2 is Some,
                        vertices@ == vertices_of(keys@),
                        indices@.len() == 3 * i + n,
                        places.len() == 3 * i + n,
                        forall|k: int|
                            0 <= k < places.len() ==> 0 <= #[trigger] places[k] < keys@.len()
                                && keys@[places[k]] == (start + corners@.take(n as int))[k]
                                && indices@[k] == as_index(places[k]),
                    decreases 3 - n,
                {
                    let key = corners[n];
                    let ghost seen = start + corners@.take(n as int);
                    let ghost more = start + corners@.take(n + 1);
                    proof {
                        assert(more.drop_last() =~= seen);
                        assert(more.last() == key);
                    }
                    match find_corner(&keys, &buckets, key) {
                        Some(vertex_index) => {
                            indices.push(#[verifier::truncate] (vertex_index as VertexIndex));
                            proof {
                                places = places.push(vertex_index as int);
                            }
                        },
                        None => {
                            let normal = match key.2 {
                                Some(normal) => normal,
                                None => {
                                    proof {
                                        assert(!loadable(shapes@[i as int]));
                                        assert(is_first_unloadable(shapes@, i as int));
                                    }
                                    return Err(String::from_str("missing normal for a vertex"));
                                },
                            };
                            let vertex = VertexSource { position: key.0, normal };
                            let ghost place = vertices@.len() as int;
                            let vertex_index = #[verifier::truncate] (vertices.len() as VertexIndex);
                            add_corner(&mut keys, &mut buckets, key);
                            vertices.push(vertex);
                            indices.push(vertex_index);
                            proof {
                                places = places.push(place);
                                assert(vertices@ =~= vertices_of(keys@));
                            }
                        },
                    }
                    proof {
                        assert(keys@ == distinct(more));
                        assert forall|k: int| 0 <= k < places.len() implies 0 <= #[trigger] places[k]
                            < keys@.len() && keys@[places[k]] == more[k] && indices@[k]
                            == as_index(places[k]) by {
                            if k < seen.len() {
                                assert(more[k] == seen[k]);
                            }
                        }
                    }
                    n += 1;
                }
                proof {
                    assert(corners@.take(3) =~= corners@);
                    assert(start + corners@ =~= start.push(a).push(b).push(c));
                    assert(corners_of(next) == start.push(a).push(b).push(c));
                    assert(corners@[0].2 is Some && corners@[1].2 is Some && corners@[2].2 is Some);
                    assert(loadable(shapes@[i as int]));
                }
            },
            _ => {
                proof {
                    assert(is_first_unloadable(shapes@, i as int));
                }
                return Err(String::from_str("unsupported non-triangle shape"));
            },
        }
        i += 1;
    }
    proof {
        assert(shapes@.take(i as int) =~= shapes@);
        let all = corners_of(shapes@);
        lemma_distinct(all);
        assert forall|k: int| 0 <= k < indices@.len() implies indices@[k] == as_index(
            place_of(all, k),
        ) by {
            lemma_place_of(all, k);
            assert(0 <= places[k] < keys@.len());
        }
        if vertices@.len() <= VertexIndex::MAX {
            assert forall|k: int| 0 <= k < indices@.len() implies (#[trigger] indices@[k])
                < vertices@.len() by {
                assert(0 <= places[k] < keys@.len());
            }
        }
    }
    Ok((vertices, indices))
}

/// Whether `i` is the last position of `wanted` in `names`.
pub open spec fn is_last_at(names: Seq<Seq<char>>, wanted: Seq<char>, i: int) -> bool {
    &&& 0 <= i < names.len()
    &&& names[i] == wanted
    &&& forall|j: int| i < j < names.len() ==> names[j] != wanted
}

/// Whether `picked` is the material of a geometry that asks for `wanted`,
/// where the library holds materials of these names: the last of that
/// name, or none where nothing is asked for, there is no library, or the
/// library has no material of that name.
pub open spec fn picks(
    names: Option<Seq<Seq<char>>>,
    wanted: Option<Seq<char>>,
    picked: Option<usize>,
) -> bool {
    match (names, wanted) {
        (Some(names), Some(wanted)) => match picked {
            Some(i) => is_last_at(names, wanted, i as int),
            None => !occurs(names, wanted),
        },
        _ => picked is None,
    }
}

/// The place of the material that a geometry asks for by the name
/// `wanted`, in a library that holds materials of these names.
pub fn pick_material(names: Option<&Vec<String>>, wanted: Option<&String>) -> (picked: Option<
    usize,
>)
    ensures
        picks(
            match names {
                Some(names) => Some(names.deep_view()),
                None => None,
            },
            match wanted {
                Some(wanted) => Some(wanted@),
                None => None,
            },
            picked,
        ),
{
    let mut res: Option<usize> = None;
    if let Some(names) = names {
        if let Some(mtl_name) = wanted {
            let mut i: usize = 0;
            while i < names.len()
                invariant
                    i <= names@.len(),
                    match res {
                        Some(at) => at < i && names@[at as int]@ == mtl_name@ && forall|j: int|
                            at < j < i ==> names@[j]@ != mtl_name@,
                        None => forall|j: int| 0 <= j < i ==> names@[j]@ != mtl_name@,
                    },
                decreases names@.len() - i,
            {
                if names[i] == *mtl_name {
                    res = Some(i);
                }
                i += 1;
            }
            proof {
                let all = names.deep_view();
                assert(all.len() == names@.len());
                assert forall|j: int| 0 <= j < all.len() implies all[j] == names@[j]@ by {}
            }
        }
    }
    res
}

/// A geometry of a model as the parser gives it: the name of the material
/// it asks for and its shapes.
pub struct GeometrySource {
    pub material_name: Option<Seq<char>>,
    pub shapes: Seq<Primitive>,
}

impl GeometrySource {
    /// Whether every shape can be loaded.
    pub open spec fn loads(self) -> bool {
        forall|i: int| 0 <= i < self.shapes.len() ==> loadable(#[trigger] self.shapes[i])
    }
}

/// A mesh: the vertices, the triangles as indices into them, three for
/// each, and the place of the material in the library, or nothing for the
/// material that a mesh has when it names none.
#[derive(Debug)]
pub struct Geometry {
    pub vertices: Vec<VertexSource>,
    pub indices: Vec<VertexIndex>,
    pub material: Option<usize>,
}

impl Geometry {
    /// Whether this is the mesh of `source`, with a library of materials of
    /// the names `names`.
    pub open spec fn is_mesh_of(&self, source: GeometrySource, names: Option<Seq<Seq<char>>>) -> bool {
        let corners = corners_of(source.shapes);
        &&& self.vertices@ == vertices_of(distinct(corners))
        &&& self.indices@.len() == 3 * source.shapes.len()
        &&& self.indices@.len() == corners.len()
        &&& forall|k: int|
            0 <= k < self.indices@.len() ==> self.indices@[k] == as_index(place_of(corners, k))
        &&& picks(names, source.material_name, self.material)
    }

    /// The invariant of a mesh: whole triangles, over vertices that are
    /// there.
    pub open spec fn wf(&self) -> bool {
        &&& self.indices@.len() % 3 == 0
        &&& forall|k: int|
            0 <= k < self.indices@.len() ==> (#[trigger] self.indices@[k]) < self.vertices@.len()
    }
}

/// The meshes of a model.
#[derive(Debug)]
pub struct Obj {
    pub geometries: Vec<Geometry>,
}

/// A parsed model.
#[verifier::external_type_specification]
#[verifier::external_body]
pub struct ExObjSet(wavefront_obj::obj::ObjSet);

/// A parsed library of materials.
#[verifier::external_type_specification]
#[verifier::external_body]
pub struct ExMtlSet(wavefront_obj::mtl::MtlSet);

/// What the parser says of a text that it cannot read.
#[verifier::external_type_specification]
#[verifier::external_body]
pub struct ExParseError(wavefront_obj::ParseError);

/// The geometries of each object of a parsed model.
pub uninterp spec fn obj_geometries(set: ObjSet) -> Seq<Seq<GeometrySource>>;

/// The names of the materials of a parsed library, in their order.
pub uninterp spec fn mtl_names(set: MtlSet) -> Seq<Seq<char>>;

/// What `wavefront_obj::obj::parse` makes of a text: the geometries of each
/// object, or nothing where it does not accept the text.
pub uninterp spec fn parsed_geometries(text: Seq<char>) -> Option<Seq<Seq<GeometrySource>>>;

/// What `wavefront_obj::mtl::parse` makes of a text: the names of the
/// materials, or nothing where it does not accept the text.
pub uninterp spec fn parsed_material_names(text: Seq<char>) -> Option<Seq<Seq<char>>>;

/// Whether a byte is a decimal digit.
pub open spec fn is_digit(byte: u8) -> bool {
    0x30 <= byte <= 0x39
}

/// Whether a minus sign stands at `i` with nine digits behind it.
pub open spec fn wide_negative_at(bytes: Seq<u8>, i: int) -> bool {
    &&& 0 <= i
    &&& i + 9 < bytes.len()
    &&& bytes[i] == 0x2d
    &&& forall|j: int| i < j <= i + 9 ==> is_digit(#[trigger] bytes[j])
}

/// Whether the text holds a negative number of nine digits or more before
/// its point. The parser counts a negative index back from the end of the
/// vertices in the integers of the machine, which such a number can leave;
/// no model counts back that far.
pub open spec fn has_wide_negative(bytes: Seq<u8>) -> bool {
    exists|i: int| wide_negative_at(bytes, i)
}

/// Calls `wavefront_obj::obj::parse`. The parser reads the text and nothing
/// else, so what it returns is named after the text: the model it gives
/// holds the geometries of that name, and it fails where the name is
/// nothing. Texts with a negative number of nine digits or more are left
/// out: on them the parser's arithmetic can overflow.
#[verifier::external_body]
fn parse_obj_text(text: &str) -> (result: Result<ObjSet, ParseError>)
    requires
        !has_wide_negative(text.spec_bytes()),
    ensures
        match result {
            Ok(set) => parsed_geometries(text@) == Some(obj_geometries(set)),
            Err(_) => parsed_geometries(text@) is None,
        },
{
    wavefront_obj::obj::parse(text)
}

/// Calls `wavefront_obj::mtl::parse`. The parser reads the text and nothing
/// else, so what it returns is named after the text: the library it gives
/// holds materials of the names of that name, and it fails where the name
/// is nothing.
#[verifier::external_body]
fn parse_mtl_text(text: &str) -> (result: Result<MtlSet, ParseError>)
    ensures
        match result {
            Ok(set) => parsed_material_names(text@) == Some(mtl_names(set)),
            Err(_) => parsed_material_names(text@) is None,
        },
{
    wavefront_obj::mtl::parse(text)
}

/// Writes out a `wavefront_obj::ParseError` as its `Debug` impl does.
/// Nothing is claimed of the text.
#[verifier::external_body]
fn parse_error_text(error: &ParseError) -> (text: String) {
    format!("{:?}", error)
}

/// Reads the length of `ObjSet::objects`: the number of objects.
#[verifier::external_body]
fn object_count(set: &ObjSet) -> (count: usize)
    ensures
        count == obj_geometries(*set).len(),
{
    set.objects.len()
}

/// Reads the length of `Object::geometry` of one object: the number of its
/// geometries.
#[verifier::external_body]
fn geometry_count(set: &ObjSet, object: usize) -> (count: usize)
    requires
        object < obj_geometries(*set).len(),
    ensures
        count == obj_geometries(*set)[object as int].len(),
{
    set.objects[object].geometry.len()
}

/// Copies `Geometry::material_name` of one geometry.
#[verifier::external_body]
fn geometry_material(set: &ObjSet, object: usize, geometry: usize) -> (name: Option<String>)
    requires
        object < obj_geometries(*set).len(),
        geometry < obj_geometries(*set)[object as int].len(),
    ensures
        match name {
            Some(name) => obj_geometries(*set)[object as int][geometry as int].material_name
                == Some(name@),
            None => obj_geometries(*set)[object as int][geometry as int].material_name is None,
        },
{
    set.objects[object].geometry[geometry].material_name.clone()
}

/// Reads the length of `Geometry::shapes` of one geometry: the number of
/// its shapes.
#[verifier::external_body]
fn shape_count(set: &ObjSet, object: usize, geometry: usize) -> (count: usize)
    requires
        object < obj_geometries(*set).len(),
        geometry < obj_geometries(*set)[object as int].len(),
    ensures
        count == obj_geometries(*set)[object as int][geometry as int].shapes.len(),
{
    set.objects[object].geometry[geometry].shapes.len()
}

/// Copies `Shape::primitive` of one shape, variant for variant.
#[verifier::external_body]
fn shape_at(set: &ObjSet, object: usize, geometry: usize, shape: usize) -> (primitive: Primitive)
    requires
        object < obj_geometries(*set).len(),
        geometry < obj_geometries(*set)[object as int].len(),
        shape < obj_geometries(*set)[object as int][geometry as int].shapes.len(),
    ensures
        primitive == obj_geometries(*set)[object as int][geometry as int].shapes[shape as int],
{
    match set.objects[object].geometry[geometry].shapes[shape].primitive {
        wavefront_obj::obj::Primitive::Point(a) => Primitive::Point(a),
        wavefront_obj::obj::Primitive::Line(a, b) => Primitive::Line(a, b),
        wavefront_obj::obj::Primitive::Triangle(a, b, c) => Primitive::Triangle(a, b, c),
    }
}

/// Reads the length of `MtlSet::materials`: the number of materials.
#[verifier::external_body]
fn material_count(set: &MtlSet) -> (count: usize)
    ensures
        count == mtl_names(*set).len(),
{
    set.materials.len()
}

/// Copies `Material::name` of one material.
#[verifier::external_body]
fn material_name(set: &MtlSet, material: usize) -> (name: String)
    requires
        material < mtl_names(*set).len(),
    ensures
        name@ == mtl_names(*set)[material as int],
{
    set.materials[material].name.clone()
}

/// What is said of a text that the parser does not accept: these words,
/// and then the words of the parser.
pub open spec fn parse_failure_prefix() -> Seq<char> {
    "cannot parse: "@
}

/// The words for a parser's error.
fn cannot_parse(error: &ParseError) -> (text: String)
    ensures
        parse_failure_prefix().is_prefix_of(text@),
{
    let text = String::from_str("cannot parse: ").concat(parse_error_text(error).as_str());
    assert(text@.subrange(0, parse_failure_prefix().len() as int) =~= parse_failure_prefix());
    text
}

/// Whether the text holds a negative number of nine digits or more before
/// its point.
pub fn holds_wide_negative(text: &str) -> (wide: bool)
    ensures
        wide == has_wide_negative(text.spec_bytes()),
{
    let bytes = text.as_bytes();
    let n = bytes.len();
    let mut i: usize = 0;
    while i < n
        invariant
            i <= n,
            n == bytes@.len(),
            bytes@ == text.spec_bytes(),
            forall|k: int| 0 <= k < i ==> !wide_negative_at(bytes@, k),
        decreases n - i,
    {
        if bytes[i] == 0x2d && n - i > 9 {
            let mut digits: usize = 0;
            while digits < 9 && bytes[i + 1 + digits] >= 0x30 && bytes[i + 1 + digits] <= 0x39
                invariant
                    digits <= 9,
                    i + 9 < n,
                    n == bytes@.len(),
                    forall|j: int| i < j <= i + digits ==> is_digit(#[trigger] bytes@[j]),
                decreases 9 - digits,
            {
                digits += 1;
            }
            if digits == 9 {
                assert(wide_negative_at(bytes@, i as int));
                return true;
            }
            assert(!is_digit(bytes@[i + 1 + digits]));
        }
        i += 1;
    }
    false
}

/// Parses the text of a model. A text with a negative number of nine
/// digits or more is not parsed.
pub fn parse_obj(text: &str) -> (result: Result<ObjSet, String>)
    ensures
        has_wide_negative(text.spec_bytes()) ==> result is Err,
        !has_wide_negative(text.spec_bytes()) ==> match result {
            Ok(set) => parsed_geometries(text@) == Some(obj_geometries(set)),
            Err(_) => parsed_geometries(text@) is None,
        },
        result matches Err(words) ==> parse_failure_prefix().is_prefix_of(words@),
{
    if holds_wide_negative(text) {
        let words = String::from_str("cannot parse: ").concat("a negative index is too wide");
        assert(words@.subrange(0, parse_failure_prefix().len() as int) =~= parse_failure_prefix());
        return Err(words);
    }
    match parse_obj_text(text) {
        Ok(set) => Ok(set),
        Err(e) => Err(cannot_parse(&e)),
    }
}

/// Parses the text of a library of materials.
pub fn parse_mtl(text: &str) -> (result: Result<MtlSet, String>)
    ensures
        match result {
            Ok(set) => parsed_material_names(text@) == Some(mtl_names(set)),
            Err(words) => parsed_material_names(text@) is None
                && parse_failure_prefix().is_prefix_of(words@),
        },
{
    match parse_mtl_text(text) {
        Ok(set) => Ok(set),
        Err(e) => Err(cannot_parse(&e)),
    }
}

/// The names of the materials of a library, where there is one.
pub open spec fn names_in(mtl: Option<&MtlSet>) -> Option<Seq<Seq<char>>> {
    match mtl {
        Some(set) => Some(mtl_names(*set)),
        None => None,
    }
}

/// Whether the geometry at `g` is the first with a shape that cannot be
/// loaded, and the shape at `i` is its first such shape.
pub open spec fn is_first_failure(sources: Seq<GeometrySource>, g: int, i: int) -> bool {
    &&& 0 <= g < sources.len()
    &&& forall|h: int| 0 <= h < g ==> (#[trigger] sources[h]).loads()
    &&& is_first_unloadable(sources[g].shapes, i)
}

impl Obj {
    /// The meshes of a parsed model of one object, one for each of its
    /// geometries, with the materials of `mtl` where there is a library.
    ///
    /// A model loads where all its shapes are triangles whose corners have
    /// normals. Else the first shape that is not so decides what is said.
    pub fn load(set: &ObjSet, mtl: Option<&MtlSet>) -> (result: Result<Obj, String>)
        requires
            obj_geometries(*set).len() == 1,
        ensures
            result is Ok <==> forall|g: int|
                0 <= g < obj_geometries(*set)[0].len() ==> (#[trigger] obj_geometries(
                    *set,
                )[0][g]).loads(),
            result matches Ok(obj) ==> {
                &&& obj.geometries@.len() == obj_geometries(*set)[0].len()
                &&& forall|g: int|
                    0 <= g < obj.geometries@.len() ==> (#[trigger] obj.geometries@[g]).is_mesh_of(
                        obj_geometries(*set)[0][g],
                        names_in(mtl),
                    )
                &&& forall|g: int|
                    0 <= g < obj.geometries@.len() && obj.geometries@[g].vertices@.len()
                        <= VertexIndex::MAX ==> (#[trigger] obj.geometries@[g]).wf()
            },
            result matches Err(words) ==> exists|g: int, i: int|
                is_first_failure(obj_geometries(*set)[0], g, i) && words@ == failure_text(
                    obj_geometries(*set)[0][g].shapes[i],
                ),
    {
        let ghost sources = obj_geometries(*set)[0];
        let names: Option<Vec<String>> = match mtl {
            Some(library) => {
                let count = material_count(library);
                let mut names: Vec<String> = Vec::new();
                let mut m: usize = 0;
                while m < count
                    invariant
                        m <= count,
                        count == mtl_names(*library).len(),
                        names@.len() == m,
                        forall|k: int| 0 <= k < m ==> names@[k]@ == mtl_names(*library)[k],
                    decreases count - m,
                {
                    names.push(material_name(library, m));
                    m += 1;
                }
                assert(names.deep_view() =~= mtl_names(*library));
                Some(names)
            },
            None => None,
        };
        let mut geos: Vec<Geometry> = Vec::new();
        let count = geometry_count(set, 0);
        let mut g: usize = 0;
        while g < count
            invariant
                g <= count,
                obj_geometries(*set).len() == 1,
                sources == obj_geometries(*set)[0],
                count == sources.len(),
                match names {
                    Some(names) => Some(names.deep_view()),
                    None => None,
                } == names_in(mtl),
                geos@.len() == g,
                forall|h: int| 0 <= h < g ==> (#[trigger] sources[h]).loads(),
                forall|h: int|
                    0 <= h < g ==> (#[trigger] geos@[h]).is_mesh_of(sources[h], names_in(mtl)),
                forall|h: int|
                    0 <= h < g && geos@[h].vertices@.len() <= VertexIndex::MAX ==> (#[trigger] geos@[h]).wf(),
            decreases count - g,
        {
            let wanted = geometry_material(set, 0, g);
            let material = pick_material(names.as_ref(), wanted.as_ref());
            let shape_total = shape_count(set, 0, g);
            let mut shapes: Vec<Primitive> = Vec::new();
            let mut s: usize = 0;
            while s < shape_total
                invariant
                    s <= shape_total,
                    g < count,
                    obj_geometries(*set).len() == 1,
                    sources == obj_geometries(*set)[0],
                    count == sources.len(),
                    shape_total == sources[g as int].shapes.len(),
                    shapes@.len() == s,
                    forall|k: int| 0 <= k < s ==> shapes@[k] == sources[g as int].shapes[k],
                decreases shape_total - s,
            {
                shapes.push(shape_at(set, 0, g, s));
                s += 1;
            }
            assert(shapes@ =~= sources[g as int].shapes);
            match index_geometry(&shapes) {
                Ok((vertices, indices)) => {
                    let geometry = Geometry { vertices, indices, material };
                    assert(geometry.is_mesh_of(sources[g as int], names_in(mtl)));
                    geos.push(geometry);
                },
                Err(words) => {
                    proof {
                        let i = choose|i: int|
                            is_first_unloadable(shapes@, i) && words@ == failure_text(shapes@[i]);
                        assert(is_first_failure(sources, g as int, i));
                        assert(!sources[g as int].loads());
                    }
                    return Err(words);
                },
            }
            g += 1;
        }
        Ok(Obj { geometries: geos })
    }

    /// The meshes of a parsed model, where it holds one object and no
    /// more; else nothing.
    pub fn load_single(set: &ObjSet, mtl: Option<&MtlSet>) -> (result: Option<Result<Obj, String>>)
        ensures
            result is Some <==> obj_geometries(*set).len() == 1,
            result matches Some(loaded) ==> {
                &&& loaded is Ok <==> forall|g: int|
                    0 <= g < obj_geometries(*set)[0].len() ==> (#[trigger] obj_geometries(
                        *set,
                    )[0][g]).loads()
                &&& loaded matches Ok(obj) ==> {
                    &&& obj.geometries@.len() == obj_geometries(*set)[0].len()
                    &&& forall|g: int|
                        0 <= g < obj.geometries@.len() ==> (#[trigger] obj.geometries@[g]).is_mesh_of(
                            obj_geometries(*set)[0][g],
                            names_in(mtl),
                        )
                }
                &&& loaded matches Err(words) ==> exists|g: int, i: int|
                    is_first_failure(obj_geometries(*set)[0], g, i) && words@ == failure_text(
                        obj_geometries(*set)[0][g].shapes[i],
                    )
            },
    {
        if object_count(set) == 1 {
            Some(Self::load(set, mtl))
        } else {
            None
        }
    }
}

} // verus!
