//! The four kinds of record that a mesh description holds, and how each is
//! read from its line.

use crate::number::{index_of, is_number, parse_index, spells_number};
use crate::pattern::{
    captures, group, group_text, groups_view, regex_captures, Groups, FACE_PATTERN, FIRST_NUMBER,
    NORMAL_PATTERN, SECOND_NUMBER, TEXCOORD_PATTERN, THIRD_NUMBER, VERTEX_PATTERN,
};
use vstd::prelude::*;
use vstd::string::StrSliceExecFns;

verus! {

/// The kinds of record.
#[derive(Clone, Copy, Debug, PartialEq, Eq, Structural)]
pub enum RecordKind {
    /// A position, on a line that starts with `v`.
    Vertex,
    /// A texture coordinate, on a line that starts with `vt`.
    TextureCoordinate,
    /// A normal, on a line that starts with `vn`.
    Normal,
    /// A triangle, on a line that starts with `f`.
    Face,
}

/// Why a line could not be read as the record that its first word names.
#[derive(Clone, Copy, Debug, PartialEq, Eq, Structural)]
pub enum DecodeError {
    /// The line does not have the shape of such a record.
    Unmatched,
    /// The line has the shape, but one of its fields is empty or spells no
    /// number.
    Field,
}

/// Where the first word of a line ends: the index of the first space at or
/// after `from`, or the length of the line where there is none.
pub open spec fn word_end(line: Seq<char>, from: int) -> int
    decreases line.len() - from,
{
    if 0 <= from < line.len() && line[from] != ' ' {
        word_end(line, from + 1)
    } else {
        from
    }
}

/// The first word of a line: what stands before the first space.
pub open spec fn descriptor(line: Seq<char>) -> Seq<char> {
    line.take(word_end(line, 0))
}

/// The kind of record that a line holds, told by its first word. Lines with
/// any other first word hold no record.
pub open spec fn kind_of(line: Seq<char>) -> Option<RecordKind> {
    let word = descriptor(line);
    if word == seq!['v'] {
        Some(RecordKind::Vertex)
    } else if word == seq!['v', 't'] {
        Some(RecordKind::TextureCoordinate)
    } else if word == seq!['v', 'n'] {
        Some(RecordKind::Normal)
    } else if word == seq!['f'] {
        Some(RecordKind::Face)
    } else {
        None
    }
}

/// The first word of a line holds no space, and the line ends or a space
/// stands where the word ends.
pub proof fn lemma_word_end(line: Seq<char>, from: int)
    requires
        0 <= from <= line.len(),
    ensures
        from <= word_end(line, from) <= line.len(),
        forall|i: int| from <= i < word_end(line, from) ==> #[trigger] line[i] != ' ',
        word_end(line, from) == line.len() || line[word_end(line, from)] == ' ',
    decreases line.len() - from,
{
    if from < line.len() && line[from] != ' ' {
        lemma_word_end(line, from + 1);
    }
}

/// Tells the kind of record that a line holds.
pub fn classify(line: &str) -> (kind: Option<RecordKind>)
    ensures
        kind == kind_of(line@),
{
    let len: usize = line.unicode_len();
    proof {
        lemma_word_end(line@, 0);
    }
    if len == 0 {
        assert(descriptor(line@).len() == 0);
        return None;
    }
    let first: char = line.get_char(0);
    if first == ' ' {
        assert(descriptor(line@).len() == 0);
        return None;
    }
    assert(descriptor(line@)[0] == first);
    let one: bool = len == 1 || line.get_char(1) == ' ';
    if one {
        assert(descriptor(line@) =~= seq![first]);
        return if first == 'v' {
            Some(RecordKind::Vertex)
        } else if first == 'f' {
            assert(seq!['f'][0] == 'f');
            Some(RecordKind::Face)
        } else {
            assert(seq!['v'][0] == 'v' && seq!['f'][0] == 'f');
            assert(seq!['v', 't'][0] == 'v' && seq!['v', 'n'][0] == 'v');
            None
        };
    }
    let second: char = line.get_char(1);
    assert(descriptor(line@)[1] == second);
    let two: bool = len == 2 || line.get_char(2) == ' ';
    if two {
        assert(descriptor(line@) =~= seq![first, second]);
        return if first == 'v' && second == 't' {
            Some(RecordKind::TextureCoordinate)
        } else if first == 'v' && second == 'n' {
            Some(RecordKind::Normal)
        } else {
            assert(seq!['v', 't'][0] == 'v' && seq!['v', 't'][1] == 't');
            assert(seq!['v', 'n'][0] == 'v' && seq!['v', 'n'][1] == 'n');
            None
        };
    }
    assert(descriptor(line@).len() >= 3);
    None
}

/// A decimal number, kept as it was written.
#[derive(Debug, PartialEq, Eq)]
pub struct Scalar {
    text: String,
}

impl Clone for Scalar {
    fn clone(&self) -> (copy: Scalar)
        ensures
            copy@ == self@,
    {
        proof {
            use_type_invariant(self);
        }
        Scalar { text: self.text.clone() }
    }
}

/// How zero is written where a record stands in for a line that could not be
/// read, or a field for one that is missing.
pub open spec fn zero_text() -> Seq<char> {
    seq!['0']
}

impl View for Scalar {
    type V = Seq<char>;

    closed spec fn view(&self) -> Seq<char> {
        self.text@
    }
}

impl Scalar {
    #[verifier::type_invariant]
    spec fn spelled(self) -> bool {
        is_number(self.text@)
    }

    /// Reads a number. The text must spell one from end to end.
    pub fn parse(text: &str) -> (number: Option<Scalar>)
        ensures
            match number {
                Some(number) => is_number(text@) && number@ == text@,
                None => !is_number(text@),
            },
    {
        if spells_number(text) {
            Some(Scalar { text: text.to_owned() })
        } else {
            None
        }
    }

    /// The number zero.
    pub fn zero() -> (number: Scalar)
        ensures
            number@ == zero_text(),
    {
        proof {
            reveal_strlit("0");
            reveal_with_fuel(crate::number::digits_end, 3);
        }
        assert("0"@ =~= zero_text());
        Scalar { text: "0".to_owned() }
    }

    /// The number as it was written.
    pub fn as_str(&self) -> (text: &str)
        ensures
            text@ == self@,
            is_number(text@),
    {
        proof {
            use_type_invariant(self);
        }
        self.text.as_str()
    }
}

/// Three numbers, each as it was written.
pub type Triple = (Seq<char>, Seq<char>, Seq<char>);

/// Three zeros.
pub open spec fn zero_triple() -> Triple {
    (zero_text(), zero_text(), zero_text())
}

/// A field that must be there: the text of group `index`, where it spells a
/// number.
pub open spec fn required_number(groups: Groups, index: int) -> Option<Seq<char>> {
    match group(groups, index) {
        Some(text) => if is_number(text) {
            Some(text)
        } else {
            None
        },
        None => None,
    }
}

/// A field that may be missing: zero where group `index` is absent or empty,
/// else its text, where that spells a number.
pub open spec fn optional_number(groups: Groups, index: int) -> Option<Seq<char>> {
    match group(groups, index) {
        Some(text) => if text.len() == 0 {
            Some(zero_text())
        } else if is_number(text) {
            Some(text)
        } else {
            None
        },
        None => Some(zero_text()),
    }
}

/// The three numbers of a vertex line or a normal line, from what the search
/// for its pattern found.
pub open spec fn position_of(found: Option<Groups>) -> Result<Triple, DecodeError> {
    match found {
        None => Err(DecodeError::Unmatched),
        Some(groups) => match (
            required_number(groups, FIRST_NUMBER as int),
            required_number(groups, SECOND_NUMBER as int),
            required_number(groups, THIRD_NUMBER as int),
        ) {
            (Some(x), Some(y), Some(z)) => Ok((x, y, z)),
            _ => Err(DecodeError::Field),
        },
    }
}

/// The three numbers of a texture coordinate line, from what the search for
/// its pattern found. Only the first must be there.
pub open spec fn texcoord_of(found: Option<Groups>) -> Result<Triple, DecodeError> {
    match found {
        None => Err(DecodeError::Unmatched),
        Some(groups) => match (
            required_number(groups, FIRST_NUMBER as int),
            optional_number(groups, SECOND_NUMBER as int),
            optional_number(groups, THIRD_NUMBER as int),
        ) {
            (Some(u), Some(v), Some(w)) => Ok((u, v, w)),
            _ => Err(DecodeError::Field),
        },
    }
}

/// An index field: the index that group `index` spells.
pub open spec fn index_field(groups: Groups, index: int) -> Option<u32> {
    match group(groups, index) {
        Some(text) => index_of(text),
        None => None,
    }
}

/// The three indices that the groups from `first` on spell.
pub open spec fn corner_of(groups: Groups, first: int) -> Option<(u32, u32, u32)> {
    match (index_field(groups, first), index_field(groups, first + 1), index_field(groups, first + 2)) {
        (Some(point), Some(tex), Some(norm)) => Some((point, tex, norm)),
        _ => None,
    }
}

/// The face of a face line, from what the search for its pattern found. The
/// groups 1 to 9 hold the three corners, each as point, texture and normal.
pub open spec fn face_of(found: Option<Groups>) -> Result<Face, DecodeError> {
    match found {
        None => Err(DecodeError::Unmatched),
        Some(groups) => match (corner_of(groups, 1), corner_of(groups, 4), corner_of(groups, 7)) {
            (Some(a), Some(b), Some(c)) => Ok(
                Face { point: [a.0, b.0, c.0], tex: [a.1, b.1, c.1], norm: [a.2, b.2, c.2] },
            ),
            _ => Err(DecodeError::Field),
        },
    }
}

/// The texts of a scalar that may be missing.
pub open spec fn scalar_view(number: Option<Scalar>) -> Option<Seq<char>> {
    match number {
        Some(number) => Some(number@),
        None => None,
    }
}

/// Reads a field that must be there.
fn required(groups: &Vec<Option<String>>, index: usize) -> (number: Option<Scalar>)
    ensures
        scalar_view(number) == required_number(groups_view(groups@), index as int),
{
    match group_text(groups, index) {
        Some(text) => Scalar::parse(text),
        None => None,
    }
}

/// Reads a field that may be missing.
fn optional(groups: &Vec<Option<String>>, index: usize) -> (number: Option<Scalar>)
    ensures
        scalar_view(number) == optional_number(groups_view(groups@), index as int),
{
    match group_text(groups, index) {
        Some(text) => {
            if text.unicode_len() == 0 {
                Some(Scalar::zero())
            } else {
                Scalar::parse(text)
            }
        },
        None => Some(Scalar::zero()),
    }
}

/// Reads an index field.
fn index_at(groups: &Vec<Option<String>>, index: usize) -> (value: Option<u32>)
    ensures
        value == index_field(groups_view(groups@), index as int),
{
    match group_text(groups, index) {
        Some(text) => parse_index(text),
        None => None,
    }
}

/// Reads the three indices of one corner of a face.
fn corner(groups: &Vec<Option<String>>, first: usize) -> (indices: Option<(u32, u32, u32)>)
    requires
        first <= 7,
    ensures
        indices == corner_of(groups_view(groups@), first as int),
{
    let point: Option<u32> = index_at(groups, first);
    let tex: Option<u32> = index_at(groups, first + 1);
    let norm: Option<u32> = index_at(groups, first + 2);
    match (point, tex, norm) {
        (Some(point), Some(tex), Some(norm)) => Some((point, tex, norm)),
        _ => None,
    }
}

/// A position in space.
#[derive(Debug, PartialEq, Eq)]
pub struct Vertex {
    pub x: Scalar,
    pub y: Scalar,
    pub z: Scalar,
}

impl Clone for Vertex {
    fn clone(&self) -> (copy: Vertex)
        ensures
            copy@ == self@,
    {
        Vertex { x: self.x.clone(), y: self.y.clone(), z: self.z.clone() }
    }
}

/// What a line reads as: the view of the record, or the error.
pub open spec fn vertex_view(read: Result<Vertex, DecodeError>) -> Result<Triple, DecodeError> {
    match read {
        Ok(vertex) => Ok(vertex@),
        Err(error) => Err(error),
    }
}

impl View for Vertex {
    type V = Triple;

    open spec fn view(&self) -> Triple {
        (self.x@, self.y@, self.z@)
    }
}

impl Vertex {
    /// The vertex that a line reads as.
    pub open spec fn of_line(line: Seq<char>) -> Result<Triple, DecodeError> {
        position_of(regex_captures(VERTEX_PATTERN@, line))
    }

    /// The vertex at the origin, which stands in for a line that could not be
    /// read.
    pub fn zero() -> (vertex: Vertex)
        ensures
            vertex@ == zero_triple(),
    {
        Vertex { x: Scalar::zero(), y: Scalar::zero(), z: Scalar::zero() }
    }

    /// Builds the vertex from what the search for [`VERTEX_PATTERN`] found.
    pub fn from_captures(found: &Option<Vec<Option<String>>>) -> (read: Result<Vertex, DecodeError>)
        ensures
            vertex_view(read) == position_of(crate::pattern::captures_view(*found)),
    {
        match found {
            None => Err(DecodeError::Unmatched),
            Some(groups) => {
                let x: Option<Scalar> = required(groups, FIRST_NUMBER);
                let y: Option<Scalar> = required(groups, SECOND_NUMBER);
                let z: Option<Scalar> = required(groups, THIRD_NUMBER);
                match (x, y, z) {
                    (Some(x), Some(y), Some(z)) => Ok(Vertex { x, y, z }),
                    _ => Err(DecodeError::Field),
                }
            },
        }
    }

    /// Reads a vertex line.
    pub fn decode(line: &str) -> (read: Result<Vertex, DecodeError>)
        ensures
            vertex_view(read) == Vertex::of_line(line@),
    {
        let found: Option<Vec<Option<String>>> = captures(VERTEX_PATTERN, line);
        Vertex::from_captures(&found)
    }

    /// Reads a vertex line; a line that cannot be read gives the vertex at the
    /// origin.
    pub fn new(line: &str) -> (vertex: Vertex)
        ensures
            vertex@ == match Vertex::of_line(line@) {
                Ok(read) => read,
                Err(_) => zero_triple(),
            },
    {
        match Vertex::decode(line) {
            Ok(vertex) => vertex,
            Err(_) => Vertex::zero(),
        }
    }
}

/// A point of a texture.
#[derive(Debug, PartialEq, Eq)]
pub struct TextureCoordinate {
    pub u: Scalar,
    pub v: Scalar,
    pub w: Scalar,
}

impl Clone for TextureCoordinate {
    fn clone(&self) -> (copy: TextureCoordinate)
        ensures
            copy@ == self@,
    {
        TextureCoordinate { u: self.u.clone(), v: self.v.clone(), w: self.w.clone() }
    }
}

/// What a line reads as: the view of the record, or the error.
pub open spec fn texcoord_view(read: Result<TextureCoordinate, DecodeError>) -> Result<
    Triple,
    DecodeError,
> {
    match read {
        Ok(texcoord) => Ok(texcoord@),
        Err(error) => Err(error),
    }
}

impl View for TextureCoordinate {
    type V = Triple;

    open spec fn view(&self) -> Triple {
        (self.u@, self.v@, self.w@)
    }
}

impl TextureCoordinate {
    /// The texture coordinate that a line reads as.
    pub open spec fn of_line(line: Seq<char>) -> Result<Triple, DecodeError> {
        texcoord_of(regex_captures(TEXCOORD_PATTERN@, line))
    }

    /// The texture coordinate with three zeros, which stands in for a line
    /// that could not be read.
    pub fn zero() -> (texcoord: TextureCoordinate)
        ensures
            texcoord@ == zero_triple(),
    {
        TextureCoordinate { u: Scalar::zero(), v: Scalar::zero(), w: Scalar::zero() }
    }

    /// Builds the texture coordinate from what the search for
    /// [`TEXCOORD_PATTERN`] found.
    pub fn from_captures(found: &Option<Vec<Option<String>>>) -> (read: Result<
        TextureCoordinate,
        DecodeError,
    >)
        ensures
            texcoord_view(read) == texcoord_of(crate::pattern::captures_view(*found)),
    {
        match found {
            None => Err(DecodeError::Unmatched),
            Some(groups) => {
                let u: Option<Scalar> = required(groups, FIRST_NUMBER);
                let v: Option<Scalar> = optional(groups, SECOND_NUMBER);
                let w: Option<Scalar> = optional(groups, THIRD_NUMBER);
                match (u, v, w) {
                    (Some(u), Some(v), Some(w)) => Ok(TextureCoordinate { u, v, w }),
                    _ => Err(DecodeError::Field),
                }
            },
        }
    }

    /// Reads a texture coordinate line.
    pub fn decode(line: &str) -> (read: Result<TextureCoordinate, DecodeError>)
        ensures
            texcoord_view(read) == TextureCoordinate::of_line(line@),
    {
        let found: Option<Vec<Option<String>>> = captures(TEXCOORD_PATTERN, line);
        TextureCoordinate::from_captures(&found)
    }

    /// Reads a texture coordinate line; a line that cannot be read gives
    /// three zeros.
    pub fn new(line: &str) -> (texcoord: TextureCoordinate)
        ensures
            texcoord@ == match TextureCoordinate::of_line(line@) {
                Ok(read) => read,
                Err(_) => zero_triple(),
            },
    {
        match TextureCoordinate::decode(line) {
            Ok(texcoord) => texcoord,
            Err(_) => TextureCoordinate::zero(),
        }
    }
}

/// A direction.
#[derive(Debug, PartialEq, Eq)]
pub struct Normal {
    pub x: Scalar,
    pub y: Scalar,
    pub z: Scalar,
}

impl Clone for Normal {
    fn clone(&self) -> (copy: Normal)
        ensures
            copy@ == self@,
    {
        Normal { x: self.x.clone(), y: self.y.clone(), z: self.z.clone() }
    }
}

/// What a line reads as: the view of the record, or the error.
pub open spec fn normal_view(read: Result<Normal, DecodeError>) -> Result<Triple, DecodeError> {
    match read {
        Ok(normal) => Ok(normal@),
        Err(error) => Err(error),
    }
}

impl View for Normal {
    type V = Triple;

    open spec fn view(&self) -> Triple {
        (self.x@, self.y@, self.z@)
    }
}

impl Normal {
    /// The normal that a line reads as.
    pub open spec fn of_line(line: Seq<char>) -> Result<Triple, DecodeError> {
        position_of(regex_captures(NORMAL_PATTERN@, line))
    }

    /// The normal with three zeros, which stands in for a line that could not
    /// be read.
    pub fn zero() -> (normal: Normal)
        ensures
            normal@ == zero_triple(),
    {
        Normal { x: Scalar::zero(), y: Scalar::zero(), z: Scalar::zero() }
    }

    /// Builds the normal from what the search for [`NORMAL_PATTERN`] found.
    pub fn from_captures(found: &Option<Vec<Option<String>>>) -> (read: Result<Normal, DecodeError>)
        ensures
            normal_view(read) == position_of(crate::pattern::captures_view(*found)),
    {
        match found {
            None => Err(DecodeError::Unmatched),
            Some(groups) => {
                let x: Option<Scalar> = required(groups, FIRST_NUMBER);
                let y: Option<Scalar> = required(groups, SECOND_NUMBER);
                let z: Option<Scalar> = required(groups, THIRD_NUMBER);
                match (x, y, z) {
                    (Some(x), Some(y), Some(z)) => Ok(Normal { x, y, z }),
                    _ => Err(DecodeError::Field),
                }
            },
        }
    }

    /// Reads a normal line.
    pub fn decode(line: &str) -> (read: Result<Normal, DecodeError>)
        ensures
            normal_view(read) == Normal::of_line(line@),
    {
        let found: Option<Vec<Option<String>>> = captures(NORMAL_PATTERN, line);
        Normal::from_captures(&found)
    }

    /// Reads a normal line; a line that cannot be read gives three zeros.
    pub fn new(line: &str) -> (normal: Normal)
        ensures
            normal@ == match Normal::of_line(line@) {
                Ok(read) => read,
                Err(_) => zero_triple(),
            },
    {
        match Normal::decode(line) {
            Ok(normal) => normal,
            Err(_) => Normal::zero(),
        }
    }
}

/// A triangle. Each corner names a vertex, a texture coordinate and a normal
/// by its place in the description, counted from one.
#[derive(Clone, Copy, Debug, PartialEq, Eq)]
pub struct Face {
    pub point: [u32; 3],
    pub tex: [u32; 3],
    pub norm: [u32; 3],
}

impl Face {
    /// The face that a line reads as.
    pub open spec fn of_line(line: Seq<char>) -> Result<Face, DecodeError> {
        face_of(regex_captures(FACE_PATTERN@, line))
    }

    /// The face whose indices are all zero, which stands in for a line that
    /// could not be read.
    pub open spec fn spec_zero() -> Face {
        Face { point: [0u32, 0u32, 0u32], tex: [0u32, 0u32, 0u32], norm: [0u32, 0u32, 0u32] }
    }

    /// The face whose indices are all zero, which stands in for a line that
    /// could not be read.
    #[verifier::when_used_as_spec(spec_zero)]
    pub fn zero() -> (face: Face)
        ensures
            face == Face::spec_zero(),
    {
        Face { point: [0, 0, 0], tex: [0, 0, 0], norm: [0, 0, 0] }
    }

    /// Builds the face from what the search for [`FACE_PATTERN`] found.
    pub fn from_captures(found: &Option<Vec<Option<String>>>) -> (read: Result<Face, DecodeError>)
        ensures
            read == face_of(crate::pattern::captures_view(*found)),
    {
        match found {
            None => Err(DecodeError::Unmatched),
            Some(groups) => {
                let first: Option<(u32, u32, u32)> = corner(groups, 1);
                let second: Option<(u32, u32, u32)> = corner(groups, 4);
                let third: Option<(u32, u32, u32)> = corner(groups, 7);
                match (first, second, third) {
                    (Some(a), Some(b), Some(c)) => Ok(
                        Face { point: [a.0, b.0, c.0], tex: [a.1, b.1, c.1], norm: [a.2, b.2, c.2] },
                    ),
                    _ => Err(DecodeError::Field),
                }
            },
        }
    }

    /// Reads a face line.
    pub fn decode(line: &str) -> (read: Result<Face, DecodeError>)
        ensures
            read == Face::of_line(line@),
    {
        let found: Option<Vec<Option<String>>> = captures(FACE_PATTERN, line);
        Face::from_captures(&found)
    }

    /// Reads a face line; a line that cannot be read gives the face whose
    /// indices are all zero.
    pub fn new(line: &str) -> (face: Face)
        ensures
            face == match Face::of_line(line@) {
                Ok(read) => read,
                Err(_) => Face::spec_zero(),
            },
    {
        match Face::decode(line) {
            Ok(face) => face,
            Err(_) => Face::zero(),
        }
    }
}

} // verus!
