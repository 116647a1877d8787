use vstd::prelude::*;
use vstd::arithmetic::div_mod::lemma_fundamental_div_mod;

use crate::geometry::Face;
use crate::geometry::Mesh;
use crate::geometry::Point3;

verus! {

/// The indexed layout written to the PLY file: a vertex list and, per
/// face, the indices of its three corners in winding order.  Coordinates
/// keep the mesh's exact fixed-point values; only the byte encoding is
/// left to the writer.
pub struct PlyModel {
    pub vertices: Vec<Point3>,
    pub faces: Vec<(usize, usize, usize)>,
}

/// The triangle-soup layout written to the STL file: one facet per face,
/// corners in winding order.
pub struct StlModel {
    pub facets: Vec<Face>,
}

/// `ply` lays out exactly the triangles of `faces`: three dedicated
/// vertices per face, referenced by consecutive index triples.
pub open spec fn ply_of(ply: PlyModel, faces: Seq<Face>) -> bool {
    &&& ply.vertices@.len() == 3 * faces.len()
    &&& ply.faces@.len() == faces.len()
    &&& forall|i: int|
        #![trigger ply.faces@[i]]
        0 <= i < faces.len() ==> ply.faces@[i].0 == 3 * i && ply.faces@[i].1 == 3 * i + 1
            && ply.faces@[i].2 == 3 * i + 2
    &&& forall|i: int|
        #![trigger faces[i]]
        0 <= i < faces.len() ==> ply.vertices@[3 * i] == faces[i].a && ply.vertices@[3 * i + 1]
            == faces[i].b && ply.vertices@[3 * i + 2] == faces[i].c
}

/// Whether `p` is a corner of some face of `faces`.
pub open spec fn appears_in(p: Point3, faces: Seq<Face>) -> bool {
    exists|i: int|
        #![trigger faces[i]]
        0 <= i < faces.len() && (faces[i].a == p || faces[i].b == p || faces[i].c == p)
}

/// `stl` holds exactly the triangles of `faces`, in order.
pub open spec fn stl_of(stl: StlModel, faces: Seq<Face>) -> bool {
    stl.facets@ == faces
}

/// Lays the finished mesh out for the PLY file.
pub fn ply_model(mesh: &Mesh) -> (r: PlyModel)
    requires
        mesh.faces@.len() * 3 <= usize::MAX,
    ensures
        ply_of(r, mesh.faces@),
{
    let mut vertices: Vec<Point3> = Vec::new();
    let mut faces: Vec<(usize, usize, usize)> = Vec::new();
    let mut i: usize = 0;
    while i < mesh.faces.len()
        invariant
            0 <= i <= mesh.faces@.len(),
            mesh.faces@.len() * 3 <= usize::MAX,
            vertices@.len() == 3 * i,
            faces@.len() == i,
            forall|j: int|
                #![trigger faces@[j]]
                0 <= j < i ==> faces@[j].0 == 3 * j && faces@[j].1 == 3 * j + 1 && faces@[j].2 == 3
                    * j + 2,
            forall|j: int|
                #![trigger mesh.faces@[j]]
                0 <= j < i ==> vertices@[3 * j] == mesh.faces@[j].a && vertices@[3 * j + 1]
                    == mesh.faces@[j].b && vertices@[3 * j + 2] == mesh.faces@[j].c,
        decreases mesh.faces@.len() - i,
    {
        let f = mesh.faces[i];
        let base = i * 3;
        vertices.push(f.a);
        vertices.push(f.b);
        vertices.push(f.c);
        faces.push((base, base + 1, base + 2));
        i += 1;
    }
    PlyModel { vertices, faces }
}

/// Lays the finished mesh out for the STL file.
pub fn stl_model(mesh: &Mesh) -> (r: StlModel)
    ensures
        stl_of(r, mesh.faces@),
{
    let mut facets: Vec<Face> = Vec::new();
    let mut i: usize = 0;
    while i < mesh.faces.len()
        invariant
            0 <= i <= mesh.faces@.len(),
            facets@ =~= mesh.faces@.take(i as int),
        decreases mesh.faces@.len() - i,
    {
        facets.push(mesh.faces[i]);
        i += 1;
    }
    proof {
        assert(facets@ =~= mesh.faces@);
    }
    StlModel { facets }
}

/// Lays the finished mesh out in both encodings at once, or reports a
/// mesh too large to index.  Whenever the layouts exist they describe
/// exactly the same triangle geometry (`lemma_export_round_trip`), for
/// any mesh, side text included.
pub fn export_models(mesh: &Mesh) -> (r: Option<(PlyModel, StlModel)>)
    ensures
        r matches Some(m) ==> ply_of(m.0, mesh.faces@) && stl_of(m.1, mesh.faces@),
        r is Some <==> mesh.faces@.len() * 3 <= usize::MAX,
{
    proof {
        lemma_fundamental_div_mod(usize::MAX as int, 3);
    }
    if mesh.faces.len() <= usize::MAX / 3 {
        let ply = ply_model(mesh);
        let stl = stl_model(mesh);
        Some((ply, stl))
    } else {
        None
    }
}

/// Round trip between the two encodings: both describe exactly the same
/// triangle geometry.  Every vertex the PLY layout references is the
/// identically-positioned corner of the same-numbered STL facet, and
/// every PLY vertex appears as a corner of some STL facet.
pub proof fn lemma_export_round_trip(ply: PlyModel, stl: StlModel, faces: Seq<Face>)
    requires
        ply_of(ply, faces),
        stl_of(stl, faces),
    ensures
        ply.faces@.len() == stl.facets@.len(),
        forall|i: int|
            #![trigger stl.facets@[i]]
            0 <= i < stl.facets@.len() ==> ply.vertices@[ply.faces@[i].0 as int]
                == stl.facets@[i].a && ply.vertices@[ply.faces@[i].1 as int] == stl.facets@[i].b
                && ply.vertices@[ply.faces@[i].2 as int] == stl.facets@[i].c,
        forall|k: int|
            0 <= k < ply.vertices@.len() ==> appears_in(#[trigger] ply.vertices@[k], stl.facets@),
{
    assert forall|k: int| 0 <= k < ply.vertices@.len() implies appears_in(
        ply.vertices@[k],
        stl.facets@,
    ) by {
        let i = k / 3;
        lemma_fundamental_div_mod(k, 3);
        assert(0 <= i < faces.len());
        assert(k == 3 * i || k == 3 * i + 1 || k == 3 * i + 2);
        assert(stl.facets@[i].a == ply.vertices@[k] || stl.facets@[i].b == ply.vertices@[k]
            || stl.facets@[i].c == ply.vertices@[k]);
    }
}

} // verus!
