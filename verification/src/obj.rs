//! The OBJ text written for a simplified mesh.

use vstd::prelude::*;
use vstd::string::*;
use crate::text::{decimal, push_decimal};

verus! {

/// The numeric fields of a mesh's attribute lines, already rendered:
/// one entry per vertex position (`x y z`), per texture coordinate
/// (`u v`) and per normal (`x y z`).
pub struct ObjText {
    pub vertices: Vec<String>,
    pub texcoords: Vec<String>,
    pub normals: Vec<String>,
}

/// Each item as a line with the given tag in front.
pub open spec fn tagged_lines(tag: Seq<char>, items: Seq<Seq<char>>) -> Seq<char>
    decreases items.len(),
{
    if items.len() == 0 {
        seq![]
    } else {
        tagged_lines(tag, items.drop_last()) + tag + items.last() + "\n"@
    }
}

/// The texts of a sequence of strings.
pub open spec fn texts(s: Seq<String>) -> Seq<Seq<char>> {
    s.map_values(|x: String| x@)
}

/// One corner of a face line: the 1-based index, repeated for the
/// texture-coordinate and normal slots that the file has.
pub open spec fn corner_text(i: nat, has_uv: bool, has_normals: bool) -> Seq<char> {
    if has_uv && has_normals {
        decimal(i) + "/"@ + decimal(i) + "/"@ + decimal(i)
    } else if has_uv {
        decimal(i) + "/"@ + decimal(i)
    } else if has_normals {
        decimal(i) + "//"@ + decimal(i)
    } else {
        decimal(i)
    }
}

/// The line of a face.
pub open spec fn face_line(f: [u32; 3], has_uv: bool, has_normals: bool) -> Seq<char> {
    "f "@ + corner_text(f[0] as nat + 1, has_uv, has_normals) + " "@ + corner_text(
        f[1] as nat + 1,
        has_uv,
        has_normals,
    ) + " "@ + corner_text(f[2] as nat + 1, has_uv, has_normals) + "\n"@
}

/// The lines of the faces.
pub open spec fn face_lines(faces: Seq<[u32; 3]>, has_uv: bool, has_normals: bool) -> Seq<char>
    decreases faces.len(),
{
    if faces.len() == 0 {
        seq![]
    } else {
        face_lines(faces.drop_last(), has_uv, has_normals) + face_line(faces.last(), has_uv, has_normals)
    }
}

/// The header of the OBJ text: a comment line, the counts, the object
/// line.
pub open spec fn obj_header(nv: nat, nf: nat) -> Seq<char> {
    "# Model exported by model-compressor\n"@ + "# Vertices: "@ + decimal(nv) + ", Faces: "@ + decimal(nf)
        + "\n"@ + "o Mesh\n"@
}

/// The OBJ text of a mesh: a header with the counts, an object line,
/// the vertex lines, then the texture-coordinate and normal lines when
/// there is one per vertex, then the faces.
pub open spec fn obj_text(
    vertices: Seq<Seq<char>>,
    texcoords: Seq<Seq<char>>,
    normals: Seq<Seq<char>>,
    faces: Seq<[u32; 3]>,
) -> Seq<char> {
    let nv = vertices.len();
    let has_uv = texcoords.len() >= nv;
    let has_normals = normals.len() >= nv;
    obj_header(nv, faces.len()) + tagged_lines("v "@, vertices) + (if has_uv {
        tagged_lines("vt "@, texcoords.take(nv as int))
    } else {
        seq![]
    }) + (if has_normals {
        tagged_lines("vn "@, normals.take(nv as int))
    } else {
        seq![]
    }) + face_lines(faces, has_uv, has_normals)
}

fn push_tagged(out: &mut String, tag: &str, items: &Vec<String>, count: usize)
    requires
        count <= items@.len(),
    ensures
        final(out)@ == old(out)@ + tagged_lines(tag@, texts(items@).take(count as int)),
{
    let ghost base = old(out)@;
    for i in 0..count
        invariant
            count <= items@.len(),
            out@ == base + tagged_lines(tag@, texts(items@).take(i as int)),
    {
        out.append(tag);
        out.append(items[i].as_str());
        out.append("\n");
        assert(texts(items@).take(i + 1).drop_last() =~= texts(items@).take(i as int));
        assert(texts(items@).take(i + 1).last() == items@[i as int]@);
    }
}

fn push_corner(out: &mut String, i: u64, has_uv: bool, has_normals: bool)
    ensures
        final(out)@ == old(out)@ + corner_text(i as nat, has_uv, has_normals),
{
    push_decimal(out, i);
    if has_uv && has_normals {
        out.append("/");
        push_decimal(out, i);
        out.append("/");
        push_decimal(out, i);
    } else if has_uv {
        out.append("/");
        push_decimal(out, i);
    } else if has_normals {
        out.append("//");
        push_decimal(out, i);
    }
}

fn push_face_line(out: &mut String, f: [u32; 3], has_uv: bool, has_normals: bool)
    requires
        f[0] < u32::MAX,
        f[1] < u32::MAX,
        f[2] < u32::MAX,
    ensures
        final(out)@ == old(out)@ + face_line(f, has_uv, has_normals),
{
    let ghost base = old(out)@;
    out.append("f ");
    push_corner(out, (f[0] + 1) as u64, has_uv, has_normals);
    out.append(" ");
    push_corner(out, (f[1] + 1) as u64, has_uv, has_normals);
    out.append(" ");
    push_corner(out, (f[2] + 1) as u64, has_uv, has_normals);
    out.append("\n");
    assert(out@ =~= base + face_line(f, has_uv, has_normals));
}

/// Renders the mesh as OBJ text.
pub fn write_obj(text: &ObjText, faces: &Vec<[u32; 3]>) -> (out: String)
    requires
        forall|k: int, j: int| 0 <= k < faces@.len() && 0 <= j < 3 ==> (#[trigger] faces@[k][j]) < u32::MAX,
    ensures
        out@ == obj_text(texts(text.vertices@), texts(text.texcoords@), texts(text.normals@), faces@),
{
    let nv = text.vertices.len();
    let nf = faces.len();
    let has_uv = text.texcoords.len() >= nv;
    let has_normals = text.normals.len() >= nv;
    let mut out = String::from_str("# Model exported by model-compressor\n");
    out.append("# Vertices: ");
    push_decimal(&mut out, nv as u64);
    out.append(", Faces: ");
    push_decimal(&mut out, nf as u64);
    out.append("\n");
    out.append("o Mesh\n");
    push_tagged(&mut out, "v ", &text.vertices, nv);
    assert(texts(text.vertices@).take(nv as int) =~= texts(text.vertices@));
    if has_uv {
        push_tagged(&mut out, "vt ", &text.texcoords, nv);
    }
    if has_normals {
        push_tagged(&mut out, "vn ", &text.normals, nv);
    }
    let ghost head = out@;
    for k in 0..nf
        invariant
            nf == faces@.len(),
            forall|k: int, j: int| 0 <= k < faces@.len() && 0 <= j < 3 ==> (#[trigger] faces@[k][j]) < u32::MAX,
            out@ == head + face_lines(faces@.take(k as int), has_uv, has_normals),
    {
        let f = faces[k];
        assert(faces@[k as int][0] < u32::MAX && faces@[k as int][1] < u32::MAX && faces@[k as int][2] < u32::MAX);
        push_face_line(&mut out, f, has_uv, has_normals);
        assert(faces@.take(k + 1).drop_last() =~= faces@.take(k as int));
    }
    assert(faces@.take(nf as int) =~= faces@);
    out
}

/// Tagged lines of two lists are the lines of the first, then those of
/// the second.
pub proof fn lemma_tagged_lines_concat(tag: Seq<char>, a: Seq<Seq<char>>, b: Seq<Seq<char>>)
    ensures
        tagged_lines(tag, a + b) == tagged_lines(tag, a) + tagged_lines(tag, b),
    decreases b.len(),
{
    if b.len() == 0 {
        assert(a + b =~= a);
        assert(tagged_lines(tag, a) + tagged_lines(tag, b) =~= tagged_lines(tag, a));
    } else {
        lemma_tagged_lines_concat(tag, a, b.drop_last());
        assert((a + b).drop_last() =~= a + b.drop_last());
        assert((a + b).last() == b.last());
        assert(tagged_lines(tag, a + b) =~= tagged_lines(tag, a) + tagged_lines(tag, b));
    }
}

/// Line `i` of tagged lines is the tag, item `i` and a newline, after the
/// lines of the items before it.
pub proof fn lemma_tagged_line_at(tag: Seq<char>, items: Seq<Seq<char>>, i: int)
    requires
        0 <= i < items.len(),
    ensures
        tagged_lines(tag, items) == tagged_lines(tag, items.take(i)) + (tag + items[i] + "\n"@)
            + tagged_lines(tag, items.skip(i + 1)),
{
    assert(items =~= items.take(i + 1) + items.skip(i + 1));
    lemma_tagged_lines_concat(tag, items.take(i + 1), items.skip(i + 1));
    assert(items.take(i + 1).drop_last() =~= items.take(i));
    assert(items.take(i + 1).last() == items[i]);
    assert(tagged_lines(tag, items.take(i + 1)) == tagged_lines(tag, items.take(i)) + tag + items[i] + "\n"@);
    assert(tagged_lines(tag, items.take(i)) + tag + items[i] + "\n"@ =~= tagged_lines(tag, items.take(i)) + (tag
        + items[i] + "\n"@));
}

proof fn lemma_subrange_mid(a: Seq<char>, b: Seq<char>, c: Seq<char>)
    ensures
        (a + b + c).subrange(a.len() as int, (a.len() + b.len()) as int) == b,
{
    assert((a + b + c).subrange(a.len() as int, (a.len() + b.len()) as int) =~= b);
}

/// The parts of an OBJ text, in order.
proof fn lemma_obj_text_parts(
    vertices: Seq<Seq<char>>,
    texcoords: Seq<Seq<char>>,
    normals: Seq<Seq<char>>,
    faces: Seq<[u32; 3]>,
)
    ensures
        ({
            let nv = vertices.len() as int;
            let has_uv = texcoords.len() >= nv;
            let has_n = normals.len() >= nv;
            let vtlines = if has_uv { tagged_lines("vt "@, texcoords.take(nv)) } else { seq![] };
            let vnlines = if has_n { tagged_lines("vn "@, normals.take(nv)) } else { seq![] };
            obj_text(vertices, texcoords, normals, faces) == obj_header(vertices.len(), faces.len())
                + tagged_lines("v "@, vertices) + vtlines + vnlines + face_lines(faces, has_uv, has_n)
        }),
{
}

/// Vertex `i`'s line in an OBJ text is `v `, its position text and a
/// newline, after the header and the lines of the vertices before it.
pub proof fn lemma_obj_text_vertex_line(
    vertices: Seq<Seq<char>>,
    texcoords: Seq<Seq<char>>,
    normals: Seq<Seq<char>>,
    faces: Seq<[u32; 3]>,
    i: int,
)
    requires
        0 <= i < vertices.len(),
    ensures
        ({
            let at = (obj_header(vertices.len(), faces.len()).len() + tagged_lines("v "@, vertices.take(i)).len()) as int;
            let line = "v "@ + vertices[i] + "\n"@;
            obj_text(vertices, texcoords, normals, faces).subrange(at, at + line.len() as int) == line
        }),
{
    let nv = vertices.len() as int;
    let has_uv = texcoords.len() >= nv;
    let has_n = normals.len() >= nv;
    let vtlines = if has_uv { tagged_lines("vt "@, texcoords.take(nv)) } else { seq![] };
    let vnlines = if has_n { tagged_lines("vn "@, normals.take(nv)) } else { seq![] };
    let flines = face_lines(faces, has_uv, has_n);
    let head = obj_header(vertices.len(), faces.len());
    lemma_obj_text_parts(vertices, texcoords, normals, faces);
    lemma_tagged_line_at("v "@, vertices, i);
    let pre = tagged_lines("v "@, vertices.take(i));
    let line = "v "@ + vertices[i] + "\n"@;
    let post = tagged_lines("v "@, vertices.skip(i + 1));
    assert(obj_text(vertices, texcoords, normals, faces) =~= (head + pre) + line + (post + vtlines + vnlines + flines));
    lemma_subrange_mid(head + pre, line, post + vtlines + vnlines + flines);
}

/// When every vertex has a texture coordinate, vertex `i`'s `vt` line is
/// `vt `, texture coordinate `i` and a newline, after the `v` lines and
/// the `vt` lines before it.
pub proof fn lemma_obj_text_texcoord_line(
    vertices: Seq<Seq<char>>,
    texcoords: Seq<Seq<char>>,
    normals: Seq<Seq<char>>,
    faces: Seq<[u32; 3]>,
    i: int,
)
    requires
        0 <= i < vertices.len(),
        texcoords.len() >= vertices.len(),
    ensures
        ({
            let at = (obj_header(vertices.len(), faces.len()).len() + tagged_lines("v "@, vertices).len()
                + tagged_lines("vt "@, texcoords.take(i)).len()) as int;
            let line = "vt "@ + texcoords[i] + "\n"@;
            obj_text(vertices, texcoords, normals, faces).subrange(at, at + line.len() as int) == line
        }),
{
    let nv = vertices.len() as int;
    let has_n = normals.len() >= nv;
    let vnlines = if has_n { tagged_lines("vn "@, normals.take(nv)) } else { seq![] };
    let flines = face_lines(faces, true, has_n);
    let head = obj_header(vertices.len(), faces.len());
    let vlines = tagged_lines("v "@, vertices);
    lemma_obj_text_parts(vertices, texcoords, normals, faces);
    let tk = texcoords.take(nv);
    lemma_tagged_line_at("vt "@, tk, i);
    assert(tk.take(i) =~= texcoords.take(i));
    assert(tk[i] == texcoords[i]);
    let pre = tagged_lines("vt "@, texcoords.take(i));
    let line = "vt "@ + texcoords[i] + "\n"@;
    let post = tagged_lines("vt "@, tk.skip(i + 1));
    assert(obj_text(vertices, texcoords, normals, faces) =~= (head + vlines + pre) + line + (post + vnlines + flines));
    lemma_subrange_mid(head + vlines + pre, line, post + vnlines + flines);
}

/// When every vertex has a normal, vertex `i`'s `vn` line is `vn `,
/// normal `i` and a newline, after the `v` and `vt` lines and the `vn`
/// lines before it.
pub proof fn lemma_obj_text_normal_line(
    vertices: Seq<Seq<char>>,
    texcoords: Seq<Seq<char>>,
    normals: Seq<Seq<char>>,
    faces: Seq<[u32; 3]>,
    i: int,
)
    requires
        0 <= i < vertices.len(),
        normals.len() >= vertices.len(),
    ensures
        ({
            let nv = vertices.len() as int;
            let vtlines = if texcoords.len() >= nv { tagged_lines("vt "@, texcoords.take(nv)) } else { seq![] };
            let at = (obj_header(vertices.len(), faces.len()).len() + tagged_lines("v "@, vertices).len()
                + vtlines.len() + tagged_lines("vn "@, normals.take(i)).len()) as int;
            let line = "vn "@ + normals[i] + "\n"@;
            obj_text(vertices, texcoords, normals, faces).subrange(at, at + line.len() as int) == line
        }),
{
    let nv = vertices.len() as int;
    let has_uv = texcoords.len() >= nv;
    let vtlines = if has_uv { tagged_lines("vt "@, texcoords.take(nv)) } else { seq![] };
    let flines = face_lines(faces, has_uv, true);
    let head = obj_header(vertices.len(), faces.len());
    let vlines = tagged_lines("v "@, vertices);
    lemma_obj_text_parts(vertices, texcoords, normals, faces);
    let nk = normals.take(nv);
    lemma_tagged_line_at("vn "@, nk, i);
    assert(nk.take(i) =~= normals.take(i));
    assert(nk[i] == normals[i]);
    let pre = tagged_lines("vn "@, normals.take(i));
    let line = "vn "@ + normals[i] + "\n"@;
    let post = tagged_lines("vn "@, nk.skip(i + 1));
    assert(obj_text(vertices, texcoords, normals, faces) =~= (head + vlines + vtlines + pre) + line + (post + flines));
    lemma_subrange_mid(head + vlines + vtlines + pre, line, post + flines);
}

} // verus!
