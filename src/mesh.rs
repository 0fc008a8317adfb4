//! The mesh description format: `v x y z` adds a point, `f a b c` adds a
//! triangle by 1-based point numbers, and every other line is skipped.

use vstd::prelude::*;
use crate::number::{decode_u32, float_literal_at, is_float_literal, u32_of};
use crate::text::{
    chars_of, lemma_lines_stretch, line_end, lines, lines_after, text_of, token_bounds, tokens,
};

verus! {

/// Why a mesh description was refused.
#[derive(Debug, Clone, Copy, PartialEq, Eq, Structural)]
pub enum ParseError {
    /// A `v` line without three floating-point coordinates.
    MalformedVertex,
    /// An `f` line without three point numbers, or a point number that
    /// names no point of the mesh.
    MalformedFace,
}

/// A parsed mesh, as flat buffers.
///
/// `vertices` holds three coordinates per point, each as the floating-point
/// literal that the text gave for it. Point 0 is a placeholder at the origin, so
/// that the 1-based point numbers of the text index the buffer directly.
/// `indices` holds three point numbers per triangle.
#[derive(Debug)]
pub struct ModelData {
    pub vertices: Vec<String>,
    pub indices: Vec<u32>,
}

/// What a `ModelData` holds: the coordinate literals and the point numbers.
pub struct MeshModel {
    pub coords: Seq<Seq<char>>,
    pub indices: Seq<u32>,
}

impl View for ModelData {
    type V = MeshModel;

    open spec fn view(&self) -> MeshModel {
        MeshModel { coords: self.vertices@.map_values(|s: String| s@), indices: self.indices@ }
    }
}

/// The placeholder point: three coordinates `0`.
pub open spec fn origin_coords() -> Seq<Seq<char>> {
    seq![seq!['0'], seq!['0'], seq!['0']]
}

/// The mesh before any line is read: the placeholder point alone.
pub open spec fn empty_mesh() -> MeshModel {
    MeshModel { coords: origin_coords(), indices: seq![] }
}

impl MeshModel {
    /// The number of points, the placeholder included.
    pub open spec fn point_count(self) -> nat {
        self.coords.len() / 3
    }

    /// Every triangle names points that exist, and never the placeholder.
    pub open spec fn refs_in_range(self) -> bool {
        forall|k: int|
            0 <= k < self.indices.len() ==> 0 < #[trigger] self.indices[k] && (
            self.indices[k] as int) < self.point_count()
    }

    /// Whole points, the placeholder first, and coordinates that are literals.
    pub open spec fn points_wf(self) -> bool {
        &&& self.coords.len() % 3 == 0
        &&& self.coords.len() >= 3
        &&& self.coords.take(3) == origin_coords()
        &&& forall|k: int| 3 <= k < self.coords.len() ==> is_float_literal(#[trigger] self.coords[k])
        &&& self.indices.len() % 3 == 0
    }

    pub open spec fn wf(self) -> bool {
        self.points_wf() && self.refs_in_range()
    }
}

/// The part of a face token before its first `/`.
pub open spec fn before_slash(s: Seq<char>) -> Seq<char>
    decreases s.len(),
{
    if s.len() == 0 || s[0] == '/' {
        seq![]
    } else {
        seq![s[0]] + before_slash(s.drop_first())
    }
}

/// The point number that a face token names.
pub open spec fn face_ref(tok: Seq<char>) -> Option<u32> {
    u32_of(before_slash(tok))
}

/// The mesh after one more line, given as its tokens.
pub open spec fn read_line(m: MeshModel, toks: Seq<Seq<char>>) -> Result<MeshModel, ParseError> {
    if toks.len() > 0 && toks[0] == seq!['v'] {
        if toks.len() >= 4 && is_float_literal(toks[1]) && is_float_literal(toks[2])
            && is_float_literal(toks[3]) {
            Ok(MeshModel { coords: m.coords + seq![toks[1], toks[2], toks[3]], indices: m.indices })
        } else {
            Err(ParseError::MalformedVertex)
        }
    } else if toks.len() > 0 && toks[0] == seq!['f'] {
        if toks.len() >= 4 && face_ref(toks[1]) is Some && face_ref(toks[2]) is Some && face_ref(
            toks[3],
        ) is Some {
            Ok(
                MeshModel {
                    coords: m.coords,
                    indices: m.indices + seq![
                        face_ref(toks[1])->0,
                        face_ref(toks[2])->0,
                        face_ref(toks[3])->0,
                    ],
                },
            )
        } else {
            Err(ParseError::MalformedFace)
        }
    } else {
        Ok(m)
    }
}

/// The mesh after the lines `ls`, or the error of the first line refused.
pub open spec fn read_lines(ls: Seq<Seq<char>>, m: MeshModel) -> Result<MeshModel, ParseError>
    decreases ls.len(),
{
    if ls.len() == 0 {
        Ok(m)
    } else {
        match read_line(m, tokens(ls[0])) {
            Ok(next) => read_lines(ls.drop_first(), next),
            Err(e) => Err(e),
        }
    }
}

/// The mesh that a text describes.
pub open spec fn mesh_of(text: Seq<char>) -> Result<MeshModel, ParseError> {
    match read_lines(lines(text), empty_mesh()) {
        Ok(m) => if m.refs_in_range() {
            Ok(m)
        } else {
            Err(ParseError::MalformedFace)
        },
        Err(e) => Err(e),
    }
}

proof fn lemma_before_slash(s: Seq<char>, k: int)
    requires
        0 <= k <= s.len(),
        forall|j: int| 0 <= j < k ==> s[j] != '/',
        k < s.len() ==> s[k] == '/',
    ensures
        before_slash(s) == s.take(k),
    decreases k,
{
    if k == 0 {
        assert(s.take(0) =~= seq![]);
    } else {
        lemma_before_slash(s.drop_first(), k - 1);
        assert(seq![s[0]] + s.drop_first().take(k - 1) =~= s.take(k));
    }
}

/// The point number that the face token `t[lo..hi]` names.
fn face_ref_at(t: &Vec<char>, lo: usize, hi: usize) -> (r: Option<u32>)
    requires
        lo <= hi <= t@.len(),
    ensures
        r == face_ref(t@.subrange(lo as int, hi as int)),
{
    let mut p = lo;
    while p < hi && t[p] != '/'
        invariant
            lo <= p <= hi <= t@.len(),
            forall|k: int| lo <= k < p ==> t@[k] != '/',
        decreases hi - p,
    {
        p = p + 1;
    }
    let ghost s = t@.subrange(lo as int, hi as int);
    proof {
        lemma_before_slash(s, p - lo);
        assert(s.take(p - lo) =~= t@.subrange(lo as int, p as int));
    }
    decode_u32(t, lo, p)
}

/// Whether the token `t[lo..hi]` is the one-letter word `c`.
fn is_word(t: &Vec<char>, lo: usize, hi: usize, c: char) -> (r: bool)
    requires
        lo <= hi <= t@.len(),
    ensures
        r == (t@.subrange(lo as int, hi as int) == seq![c]),
{
    let ghost w = t@.subrange(lo as int, hi as int);
    if hi - lo != 1 {
        assert(w.len() != seq![c].len());
        return false;
    }
    assert(w[0] == t@[lo as int]);
    if t[lo] == c {
        assert(w =~= seq![c]);
        true
    } else {
        assert(w[0] != seq![c][0]);
        false
    }
}

/// Reads the line `t[lo..hi]` into the buffers.
fn read_line_at(
    t: &Vec<char>,
    lo: usize,
    hi: usize,
    vertices: &mut Vec<String>,
    indices: &mut Vec<u32>,
) -> (r: Result<(), ParseError>)
    requires
        lo <= hi <= t@.len(),
    ensures
        ({
            let before = MeshModel {
                coords: old(vertices)@.map_values(|s: String| s@),
                indices: old(indices)@,
            };
            let after = MeshModel {
                coords: final(vertices)@.map_values(|s: String| s@),
                indices: final(indices)@,
            };
            match read_line(before, tokens(t@.subrange(lo as int, hi as int))) {
                Ok(m) => r is Ok && after == m,
                Err(e) => r == Err::<(), ParseError>(e),
            }
        }),
{
    let ghost toks = tokens(t@.subrange(lo as int, hi as int));
    let ghost before = vertices@.map_values(|s: String| s@);
    let bounds = token_bounds(t, lo, hi);
    if bounds.len() == 0 {
        return Ok(());
    }
    let (a0, b0) = bounds[0];
    if is_word(t, a0, b0, 'v') {
        if bounds.len() < 4 {
            return Err(ParseError::MalformedVertex);
        }
        let (a1, b1) = bounds[1];
        let (a2, b2) = bounds[2];
        let (a3, b3) = bounds[3];
        if !(float_literal_at(t, a1, b1) && float_literal_at(t, a2, b2) && float_literal_at(
            t,
            a3,
            b3,
        )) {
            return Err(ParseError::MalformedVertex);
        }
        vertices.push(text_of(t, a1, b1));
        vertices.push(text_of(t, a2, b2));
        vertices.push(text_of(t, a3, b3));
        assert(vertices@.map_values(|s: String| s@) =~= before + seq![toks[1], toks[2], toks[3]]);
        Ok(())
    } else if is_word(t, a0, b0, 'f') {
        if bounds.len() < 4 {
            return Err(ParseError::MalformedFace);
        }
        let (a1, b1) = bounds[1];
        let (a2, b2) = bounds[2];
        let (a3, b3) = bounds[3];
        let i1 = face_ref_at(t, a1, b1);
        let i2 = face_ref_at(t, a2, b2);
        let i3 = face_ref_at(t, a3, b3);
        match (i1, i2, i3) {
            (Some(x), Some(y), Some(z)) => {
                let ghost old_indices = indices@;
                indices.push(x);
                indices.push(y);
                indices.push(z);
                assert(indices@ =~= old_indices + seq![x, y, z]);
                Ok(())
            },
            _ => Err(ParseError::MalformedFace),
        }
    } else {
        Ok(())
    }
}

proof fn lemma_read_line_keeps_points_wf(m: MeshModel, toks: Seq<Seq<char>>)
    requires
        m.points_wf(),
        read_line(m, toks) is Ok,
    ensures
        read_line(m, toks)->Ok_0.points_wf(),
{
    let n = read_line(m, toks)->Ok_0;
    if toks.len() > 0 && toks[0] == seq!['v'] {
        assert(n.coords.take(3) =~= m.coords.take(3));
        assert forall|k: int| 3 <= k < n.coords.len() implies is_float_literal(
            #[trigger] n.coords[k],
        ) by {
            if k >= m.coords.len() {
                assert(n.coords[k] == toks[k - m.coords.len() + 1]);
            } else {
                assert(n.coords[k] == m.coords[k]);
            }
        }
    }
}

proof fn lemma_read_lines_keeps_points_wf(ls: Seq<Seq<char>>, m: MeshModel)
    requires
        m.points_wf(),
        read_lines(ls, m) is Ok,
    ensures
        read_lines(ls, m)->Ok_0.points_wf(),
    decreases ls.len(),
{
    if ls.len() > 0 {
        lemma_read_line_keeps_points_wf(m, tokens(ls[0]));
        lemma_read_lines_keeps_points_wf(ls.drop_first(), read_line(m, tokens(ls[0]))->Ok_0);
    }
}

/// Every mesh that a text yields is well formed: whole points after the
/// placeholder, whole triangles, and triangles that name existing points
/// other than the placeholder.
pub proof fn lemma_parsed_mesh_wf(text: Seq<char>)
    requires
        mesh_of(text) is Ok,
    ensures
        mesh_of(text)->Ok_0.wf(),
{
    assert(empty_mesh().coords.take(3) =~= origin_coords());
    lemma_read_lines_keeps_points_wf(lines(text), empty_mesh());
}

/// The placeholder coordinate `0`.
fn zero_coord() -> (r: String)
    ensures
        r@ == seq!['0'],
{
    let z = vec!['0'];
    assert(z@ =~= seq!['0']);
    text_of(&z, 0, 1)
}

/// Whether every point number in `indices` names a point other than the
/// placeholder among the first `points` of the mesh.
fn refs_below(indices: &Vec<u32>, points: usize) -> (r: bool)
    ensures
        r == forall|k: int|
            0 <= k < indices@.len() ==> 0 < #[trigger] indices@[k] && (indices@[k] as int)
                < points,
{
    let mut i: usize = 0;
    while i < indices.len()
        invariant
            i <= indices@.len(),
            forall|k: int|
                0 <= k < i ==> 0 < #[trigger] indices@[k] && (indices@[k] as int) < points,
        decreases indices@.len() - i,
    {
        if indices[i] == 0 || indices[i] as usize >= points {
            return false;
        }
        i = i + 1;
    }
    true
}

/// Parses a mesh description.
///
/// Lines are separated by line feeds and split into tokens at whitespace.
/// A line whose first token is `v` adds a point from the next three tokens,
/// each a floating-point literal; one whose first token is `f` adds a
/// triangle from the next three tokens, each read up to its first `/` as a
/// point number; further tokens are ignored, and so is every other line.
/// The first line refused decides the error. A triangle that names the
/// placeholder or a point beyond the last is refused as `MalformedFace`.
pub fn load_model(text: &str) -> (r: Result<ModelData, ParseError>)
    ensures
        match r {
            Ok(m) => mesh_of(text@) == Ok::<MeshModel, ParseError>(m@),
            Err(e) => mesh_of(text@) == Err::<MeshModel, ParseError>(e),
        },
        r is Ok ==> r->Ok_0@.wf(),
{
    let t = chars_of(text);
    let mut vertices: Vec<String> = Vec::new();
    vertices.push(zero_coord());
    vertices.push(zero_coord());
    vertices.push(zero_coord());
    let mut indices: Vec<u32> = Vec::new();
    let ghost all = lines(t@);
    proof {
        assert(vertices@.map_values(|s: String| s@) =~= origin_coords());
        assert(indices@ =~= seq![]);
        assert(t@.skip(0) =~= t@);
    }
    let mut pos: usize = 0;
    loop
        invariant_except_break
            pos <= t@.len(),
            all == lines(t@),
            t@ == text@,
            read_lines(all, empty_mesh()) == read_lines(
                lines_after(t@.skip(pos as int), seq![]),
                MeshModel { coords: vertices@.map_values(|s: String| s@), indices: indices@ },
            ),
        ensures
            read_lines(all, empty_mesh()) == Ok::<MeshModel, ParseError>(
                MeshModel { coords: vertices@.map_values(|s: String| s@), indices: indices@ },
            ),
        decreases t@.len() - pos,
    {
        let le = line_end(&t, pos);
        let ghost rest = t@.skip(pos as int);
        let ghost line = t@.subrange(pos as int, le as int);
        let ghost cur = MeshModel { coords: vertices@.map_values(|s: String| s@), indices: indices@ };
        proof {
            lemma_lines_stretch(rest, seq![], le - pos);
            assert(seq![] + rest.take(le - pos) =~= line);
            assert(rest.skip(le - pos) =~= t@.skip(le as int));
        }
        let step = read_line_at(&t, pos, le, &mut vertices, &mut indices);
        if le == t.len() {
            proof {
                assert(t@.skip(le as int).len() == 0);
                let ls = lines_after(rest, seq![]);
                assert(ls =~= seq![line]);
                assert(ls[0] == line);
                assert(ls.drop_first() =~= seq![]);
                let after = MeshModel {
                    coords: vertices@.map_values(|s: String| s@),
                    indices: indices@,
                };
                if step is Ok {
                    assert(read_lines(ls, cur) == read_lines(ls.drop_first(), after));
                }
            }
            match step {
                Err(e) => {
                    return Err(e);
                },
                Ok(()) => {},
            }
            break ;
        }
        proof {
            let after = t@.skip(le as int);
            assert(after[0] == '\n');
            assert(after.drop_first() =~= t@.skip(le + 1));
            let ls = lines_after(rest, seq![]);
            assert(ls == seq![line] + lines_after(t@.skip(le + 1), seq![]));
            assert(ls[0] == line);
            assert(ls.drop_first() =~= lines_after(t@.skip(le + 1), seq![]));
        }
        match step {
            Err(e) => {
                return Err(e);
            },
            Ok(()) => {},
        }
        pos = le + 1;
    }
    let ghost m = MeshModel { coords: vertices@.map_values(|s: String| s@), indices: indices@ };
    assert(read_lines(lines(text@), empty_mesh()) == Ok::<MeshModel, ParseError>(m));
    let points = vertices.len() / 3;
    assert(m.point_count() == points);
    if !refs_below(&indices, points) {
        assert(!m.refs_in_range());
        return Err(ParseError::MalformedFace);
    }
    let r = ModelData { vertices, indices };
    proof {
        assert(r@ == m);
        lemma_parsed_mesh_wf(text@);
    }
    Ok(r)
}

} // verus!
