//! A mesh, read line by line from its description.

use crate::record::{
    classify, kind_of, zero_triple, DecodeError, Face, Normal, RecordKind, TextureCoordinate,
    Triple, Vertex,
};
use vstd::prelude::*;

verus! {

/// A line that could not be read as the record that its first word names.
#[derive(Clone, Copy, Debug, PartialEq, Eq, Structural)]
pub struct Diagnostic {
    /// The place of the line in the description, counted from zero.
    pub line: usize,
    /// The kind of record that the line's first word names.
    pub kind: RecordKind,
    /// What was wrong with the line.
    pub error: DecodeError,
}

/// What a model holds: the records of each kind in the order of their lines,
/// and the lines that could not be read.
pub struct Mesh {
    pub vertices: Seq<Triple>,
    pub texcoords: Seq<Triple>,
    pub normals: Seq<Triple>,
    pub faces: Seq<Face>,
    pub diagnostics: Seq<Diagnostic>,
}

/// The mesh of an empty description.
pub open spec fn empty_mesh() -> Mesh {
    Mesh {
        vertices: Seq::empty(),
        texcoords: Seq::empty(),
        normals: Seq::empty(),
        faces: Seq::empty(),
        diagnostics: Seq::empty(),
    }
}

/// The diagnostics with one more, where `read` is an error.
pub open spec fn noted<T>(
    diagnostics: Seq<Diagnostic>,
    at: int,
    kind: RecordKind,
    read: Result<T, DecodeError>,
) -> Seq<Diagnostic> {
    match read {
        Ok(_) => diagnostics,
        Err(error) => diagnostics.push(Diagnostic { line: at as usize, kind, error }),
    }
}

/// The three numbers that are stored for a line: those read, or three zeros.
pub open spec fn stored(read: Result<Triple, DecodeError>) -> Triple {
    match read {
        Ok(numbers) => numbers,
        Err(_) => zero_triple(),
    }
}

/// The face that is stored for a line: the one read, or the face of zeros.
pub open spec fn stored_face(read: Result<Face, DecodeError>) -> Face {
    match read {
        Ok(face) => face,
        Err(_) => Face::spec_zero(),
    }
}

/// The mesh after line number `at` of the description has been read.
///
/// A line whose first word names a kind of record adds one record of that
/// kind: the one it spells or, where it cannot be read, a record of zeros
/// together with a diagnostic. Any other line changes nothing.
pub open spec fn read_line(mesh: Mesh, at: int, line: Seq<char>) -> Mesh {
    match kind_of(line) {
        Some(RecordKind::Vertex) => Mesh {
            vertices: mesh.vertices.push(stored(Vertex::of_line(line))),
            diagnostics: noted(mesh.diagnostics, at, RecordKind::Vertex, Vertex::of_line(line)),
            ..mesh
        },
        Some(RecordKind::TextureCoordinate) => Mesh {
            texcoords: mesh.texcoords.push(stored(TextureCoordinate::of_line(line))),
            diagnostics: noted(
                mesh.diagnostics,
                at,
                RecordKind::TextureCoordinate,
                TextureCoordinate::of_line(line),
            ),
            ..mesh
        },
        Some(RecordKind::Normal) => Mesh {
            normals: mesh.normals.push(stored(Normal::of_line(line))),
            diagnostics: noted(mesh.diagnostics, at, RecordKind::Normal, Normal::of_line(line)),
            ..mesh
        },
        Some(RecordKind::Face) => Mesh {
            faces: mesh.faces.push(stored_face(Face::of_line(line))),
            diagnostics: noted(mesh.diagnostics, at, RecordKind::Face, Face::of_line(line)),
            ..mesh
        },
        None => mesh,
    }
}

/// The mesh after the lines at `from` and behind it have been read into
/// `mesh`.
pub open spec fn read_from(mesh: Mesh, lines: Seq<Seq<char>>, from: int) -> Mesh
    decreases lines.len() - from,
{
    if 0 <= from < lines.len() {
        read_from(read_line(mesh, from, lines[from]), lines, from + 1)
    } else {
        mesh
    }
}

/// The mesh that a description holds.
pub open spec fn read_lines(lines: Seq<Seq<char>>) -> Mesh {
    read_from(empty_mesh(), lines, 0)
}

/// The texts of a list of lines.
pub open spec fn texts(lines: Seq<String>) -> Seq<Seq<char>> {
    Seq::new(lines.len(), |i: int| lines[i]@)
}

/// The views of a list of vertices.
pub open spec fn vertex_views(vertices: Seq<Vertex>) -> Seq<Triple> {
    Seq::new(vertices.len(), |i: int| vertices[i]@)
}

/// The views of a list of texture coordinates.
pub open spec fn texcoord_views(texcoords: Seq<TextureCoordinate>) -> Seq<Triple> {
    Seq::new(texcoords.len(), |i: int| texcoords[i]@)
}

/// The views of a list of normals.
pub open spec fn normal_views(normals: Seq<Normal>) -> Seq<Triple> {
    Seq::new(normals.len(), |i: int| normals[i]@)
}

/// A mesh: its vertices, texture coordinates, normals and faces, each kind in
/// the order in which the description gives them.
pub struct Model {
    vertices: Vec<Vertex>,
    texcoords: Vec<TextureCoordinate>,
    normals: Vec<Normal>,
    faces: Vec<Face>,
    diagnostics: Vec<Diagnostic>,
}

impl View for Model {
    type V = Mesh;

    closed spec fn view(&self) -> Mesh {
        Mesh {
            vertices: vertex_views(self.vertices@),
            texcoords: texcoord_views(self.texcoords@),
            normals: normal_views(self.normals@),
            faces: self.faces@,
            diagnostics: self.diagnostics@,
        }
    }
}

impl Model {
    /// Reads one more line into the model.
    fn push_line(&mut self, at: usize, line: &str)
        ensures
            final(self)@ == read_line(old(self)@, at as int, line@),
    {
        match classify(line) {
            Some(RecordKind::Vertex) => {
                match Vertex::decode(line) {
                    Ok(vertex) => {
                        self.vertices.push(vertex);
                    },
                    Err(error) => {
                        self.vertices.push(Vertex::zero());
                        self.diagnostics.push(
                            Diagnostic { line: at, kind: RecordKind::Vertex, error },
                        );
                    },
                }
                assert(vertex_views(self.vertices@) =~= vertex_views(old(self).vertices@).push(
                    stored(Vertex::of_line(line@)),
                ));
            },
            Some(RecordKind::TextureCoordinate) => {
                match TextureCoordinate::decode(line) {
                    Ok(texcoord) => {
                        self.texcoords.push(texcoord);
                    },
                    Err(error) => {
                        self.texcoords.push(TextureCoordinate::zero());
                        self.diagnostics.push(
                            Diagnostic { line: at, kind: RecordKind::TextureCoordinate, error },
                        );
                    },
                }
                assert(texcoord_views(self.texcoords@) =~= texcoord_views(
                    old(self).texcoords@,
                ).push(stored(TextureCoordinate::of_line(line@))));
            },
            Some(RecordKind::Normal) => {
                match Normal::decode(line) {
                    Ok(normal) => {
                        self.normals.push(normal);
                    },
                    Err(error) => {
                        self.normals.push(Normal::zero());
                        self.diagnostics.push(
                            Diagnostic { line: at, kind: RecordKind::Normal, error },
                        );
                    },
                }
                assert(normal_views(self.normals@) =~= normal_views(old(self).normals@).push(
                    stored(Normal::of_line(line@)),
                ));
            },
            Some(RecordKind::Face) => {
                match Face::decode(line) {
                    Ok(face) => {
                        self.faces.push(face);
                    },
                    Err(error) => {
                        self.faces.push(Face::zero());
                        self.diagnostics.push(
                            Diagnostic { line: at, kind: RecordKind::Face, error },
                        );
                    },
                }
            },
            None => {},
        }
    }

    /// Reads a mesh from the lines of its description.
    ///
    /// No line makes the reading fail. One that cannot be read as the record
    /// that its first word names leaves a record of zeros in its place, so
    /// that the records behind it keep their numbers, and is listed among the
    /// [`Model::diagnostics`].
    pub fn new(lines: &Vec<String>) -> (model: Model)
        ensures
            model@ == read_lines(texts(lines@)),
    {
        let mut model = Model {
            vertices: Vec::new(),
            texcoords: Vec::new(),
            normals: Vec::new(),
            faces: Vec::new(),
            diagnostics: Vec::new(),
        };
        assert(model@ == empty_mesh()) by {
            assert(vertex_views(model.vertices@) =~= Seq::empty());
            assert(texcoord_views(model.texcoords@) =~= Seq::empty());
            assert(normal_views(model.normals@) =~= Seq::empty());
        }
        let mut at: usize = 0;
        while at < lines.len()
            invariant
                at <= lines.len(),
                read_from(model@, texts(lines@), at as int) == read_lines(texts(lines@)),
            decreases lines.len() - at,
        {
            model.push_line(at, lines[at].as_str());
            at += 1;
        }
        model
    }

    /// The faces, in the order of their lines.
    pub fn iter_faces(&self) -> (faces: std::slice::Iter<'_, Face>)
        ensures
            vstd::std_specs::slice::into_iter_elts(faces) == self@.faces,
    {
        self.faces.iter()
    }

    /// The normal at place `i`, counted from zero.
    pub fn get_normal(&self, i: usize) -> (normal: Option<&Normal>)
        ensures
            match normal {
                Some(normal) => i < self@.normals.len() && normal@ == self@.normals[i as int],
                None => i >= self@.normals.len(),
            },
    {
        if i < self.normals.len() {
            Some(&self.normals[i])
        } else {
            None
        }
    }

    /// The vertex at place `i`, counted from zero.
    pub fn get_vertex(&self, i: usize) -> (vertex: Option<&Vertex>)
        ensures
            match vertex {
                Some(vertex) => i < self@.vertices.len() && vertex@ == self@.vertices[i as int],
                None => i >= self@.vertices.len(),
            },
    {
        if i < self.vertices.len() {
            Some(&self.vertices[i])
        } else {
            None
        }
    }

    /// The texture coordinate at place `i`, counted from zero.
    pub fn get_texcoord(&self, i: usize) -> (texcoord: Option<&TextureCoordinate>)
        ensures
            match texcoord {
                Some(texcoord) => i < self@.texcoords.len() && texcoord@
                    == self@.texcoords[i as int],
                None => i >= self@.texcoords.len(),
            },
    {
        if i < self.texcoords.len() {
            Some(&self.texcoords[i])
        } else {
            None
        }
    }

    /// The lines that could not be read, in their order.
    pub fn diagnostics(&self) -> (diagnostics: &[Diagnostic])
        ensures
            diagnostics@ == self@.diagnostics,
    {
        self.diagnostics.as_slice()
    }
}

/// Whether each list of `mesh` is the start of the same list of `later`.
pub open spec fn extends(later: Mesh, mesh: Mesh) -> bool {
    &&& mesh.vertices.is_prefix_of(later.vertices)
    &&& mesh.texcoords.is_prefix_of(later.texcoords)
    &&& mesh.normals.is_prefix_of(later.normals)
    &&& mesh.faces.is_prefix_of(later.faces)
    &&& mesh.diagnostics.is_prefix_of(later.diagnostics)
}

/// The error of a line that cannot be read as the record that its first word
/// names; `None` for a line that can, and for one that names no record.
pub open spec fn line_error(line: Seq<char>) -> Option<DecodeError> {
    match kind_of(line) {
        Some(RecordKind::Vertex) => match Vertex::of_line(line) {
            Ok(_) => None,
            Err(error) => Some(error),
        },
        Some(RecordKind::TextureCoordinate) => match TextureCoordinate::of_line(line) {
            Ok(_) => None,
            Err(error) => Some(error),
        },
        Some(RecordKind::Normal) => match Normal::of_line(line) {
            Ok(_) => None,
            Err(error) => Some(error),
        },
        Some(RecordKind::Face) => match Face::of_line(line) {
            Ok(_) => None,
            Err(error) => Some(error),
        },
        None => None,
    }
}

/// Reading one line takes nothing away and moves nothing.
pub proof fn lemma_read_line_extends(mesh: Mesh, at: int, line: Seq<char>)
    ensures
        extends(read_line(mesh, at, line), mesh),
{
}

/// Reading a description with one more line at its end is reading the
/// description and then that line.
pub proof fn lemma_read_one_more(mesh: Mesh, lines: Seq<Seq<char>>, from: int, line: Seq<char>)
    requires
        0 <= from <= lines.len(),
    ensures
        read_from(mesh, lines.push(line), from) == read_line(
            read_from(mesh, lines, from),
            lines.len() as int,
            line,
        ),
    decreases lines.len() - from,
{
    let longer = lines.push(line);
    if from < lines.len() {
        assert(longer[from] == lines[from]);
        lemma_read_one_more(read_line(mesh, from, lines[from]), lines, from + 1, line);
    } else {
        assert(longer[from] == line);
        assert(read_from(read_line(mesh, from, line), longer, from + 1) == read_line(
            mesh,
            from,
            line,
        ));
    }
}

/// A well-formed vertex line is stored as it reads, at the end of the
/// vertices: looked up at the place where it was put, it gives back the three
/// numbers of the line. The same holds of the other three kinds of line.
pub proof fn lemma_well_formed_line_is_stored(lines: Seq<Seq<char>>, line: Seq<char>)
    requires
        kind_of(line) is Some,
        line_error(line) is None,
    ensures
        ({
            let before = read_lines(lines);
            let after = read_lines(lines.push(line));
            &&& after.diagnostics == before.diagnostics
            &&& kind_of(line) == Some(RecordKind::Vertex) ==> {
                &&& after.vertices.len() == before.vertices.len() + 1
                &&& Vertex::of_line(line) == Ok::<Triple, DecodeError>(
                    after.vertices[before.vertices.len() as int],
                )
            }
            &&& kind_of(line) == Some(RecordKind::TextureCoordinate) ==> {
                &&& after.texcoords.len() == before.texcoords.len() + 1
                &&& TextureCoordinate::of_line(line) == Ok::<Triple, DecodeError>(
                    after.texcoords[before.texcoords.len() as int],
                )
            }
            &&& kind_of(line) == Some(RecordKind::Normal) ==> {
                &&& after.normals.len() == before.normals.len() + 1
                &&& Normal::of_line(line) == Ok::<Triple, DecodeError>(
                    after.normals[before.normals.len() as int],
                )
            }
            &&& kind_of(line) == Some(RecordKind::Face) ==> {
                &&& after.faces.len() == before.faces.len() + 1
                &&& Face::of_line(line) == Ok::<Face, DecodeError>(
                    after.faces[before.faces.len() as int],
                )
            }
            &&& extends(after, before)
        }),
{
    lemma_read_one_more(empty_mesh(), lines, 0, line);
}

/// A line that names a kind of record but cannot be read leaves a record of
/// zeros in its place: the list for its kind grows by that one record, and
/// the line is listed with its number, its kind and its error.
pub proof fn lemma_malformed_line_is_replaced(lines: Seq<Seq<char>>, line: Seq<char>)
    requires
        line_error(line) is Some,
    ensures
        ({
            let before = read_lines(lines);
            let after = read_lines(lines.push(line));
            &&& kind_of(line) is Some
            &&& after.diagnostics == before.diagnostics.push(
                Diagnostic {
                    line: lines.len() as usize,
                    kind: kind_of(line)->0,
                    error: line_error(line)->0,
                },
            )
            &&& kind_of(line) == Some(RecordKind::Vertex) ==> after.vertices
                == before.vertices.push(zero_triple())
            &&& kind_of(line) == Some(RecordKind::TextureCoordinate) ==> after.texcoords
                == before.texcoords.push(zero_triple())
            &&& kind_of(line) == Some(RecordKind::Normal) ==> after.normals
                == before.normals.push(zero_triple())
            &&& kind_of(line) == Some(RecordKind::Face) ==> after.faces == before.faces.push(
                Face::spec_zero(),
            )
            &&& extends(after, before)
        }),
{
    lemma_read_one_more(empty_mesh(), lines, 0, line);
}

/// A line whose first word names no kind of record changes nothing.
pub proof fn lemma_other_line_is_skipped(lines: Seq<Seq<char>>, line: Seq<char>)
    requires
        kind_of(line) is None,
    ensures
        read_lines(lines.push(line)) == read_lines(lines),
{
    lemma_read_one_more(empty_mesh(), lines, 0, line);
}

/// Reading never stops early and never goes back: whatever lines follow, the
/// records and diagnostics of the lines before them stay as they are, each at
/// its place.
pub proof fn lemma_reading_continues(lines: Seq<Seq<char>>, more: Seq<Seq<char>>)
    ensures
        extends(read_lines(lines + more), read_lines(lines)),
    decreases more.len(),
{
    if more.len() == 0 {
        assert(lines + more =~= lines);
    } else {
        let shorter = more.drop_last();
        lemma_reading_continues(lines, shorter);
        assert(lines + more =~= (lines + shorter).push(more.last()));
        lemma_read_one_more(empty_mesh(), lines + shorter, 0, more.last());
        lemma_read_line_extends(
            read_lines(lines + shorter),
            (lines + shorter).len() as int,
            more.last(),
        );
    }
}

} // verus!
