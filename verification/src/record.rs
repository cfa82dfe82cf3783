use crate::number::{index_of, is_float_literal, parse_index};
use vstd::prelude::*;
use vstd::string::StrSliceExecFns;

verus! {

/// The three literals of a position or of a normal, as written in the input.
pub type Text3 = (Seq<char>, Seq<char>, Seq<char>);

/// Which of the two tables an index refers to.
#[derive(Clone, Copy, Debug, PartialEq, Eq, Structural)]
pub enum TableKind {
    Position,
    Normal,
}

/// What the first word of a line makes of it.
#[derive(Clone, Copy, Debug, PartialEq, Eq, Structural)]
pub enum RecordKind {
    Position,
    Normal,
    Face,
    Ignored,
}

/// The mathematical value of a [`LoadError`].
pub ghost enum Failure {
    Arity { line: Seq<char>, expected: nat, actual: nat },
    Token { line: Seq<char>, token: Seq<char> },
    Reference { index: nat, table: TableKind, length: nat },
}

/// Why a load stopped. `Arity` and `Token` are the two forms of a format
/// error: a record with the wrong number of fields, and a field that cannot be
/// read. `Reference` is an index that points outside its table.
#[derive(Debug, PartialEq, Eq)]
pub enum LoadError {
    Arity { line: String, expected: usize, actual: usize },
    Token { line: String, token: String },
    Reference { index: usize, table: TableKind, length: usize },
}

impl View for LoadError {
    type V = Failure;

    open spec fn view(&self) -> Failure {
        match *self {
            LoadError::Arity { line, expected, actual } => Failure::Arity {
                line: line@,
                expected: expected as nat,
                actual: actual as nat,
            },
            LoadError::Token { line, token } => Failure::Token { line: line@, token: token@ },
            LoadError::Reference { index, table, length } => Failure::Reference {
                index: index as nat,
                table,
                length: length as nat,
            },
        }
    }
}

impl Failure {
    /// Whether the failure is a format error.
    pub open spec fn is_format(self) -> bool {
        self is Arity || self is Token
    }
}

impl LoadError {
    /// Whether the error is a format error, as opposed to a reference error.
    pub fn is_format(&self) -> (r: bool)
        ensures
            r == self@.is_format(),
    {
        match self {
            LoadError::Arity { .. } => true,
            LoadError::Token { .. } => true,
            LoadError::Reference { .. } => false,
        }
    }
}

/// A position or a normal: its three coordinates, each kept as the literal
/// that the input gave.
#[derive(Debug, PartialEq, Eq)]
pub struct Triple {
    pub x: String,
    pub y: String,
    pub z: String,
}

impl View for Triple {
    type V = Text3;

    open spec fn view(&self) -> Text3 {
        (self.x@, self.y@, self.z@)
    }
}

impl Clone for Triple {
    fn clone(&self) -> (r: Self)
        ensures
            r@ == self@,
    {
        Triple { x: self.x.clone(), y: self.y.clone(), z: self.z.clone() }
    }
}

/// The mathematical value of a [`Vertex`].
pub ghost struct Point {
    pub position: Text3,
    pub normal: Text3,
}

/// One corner of a triangle: a position and a normal, copied from the tables.
#[derive(Debug, PartialEq, Eq)]
pub struct Vertex {
    pub position: Triple,
    pub normal: Triple,
}

impl View for Vertex {
    type V = Point;

    open spec fn view(&self) -> Point {
        Point { position: self.position@, normal: self.normal@ }
    }
}

impl Clone for Vertex {
    fn clone(&self) -> (r: Self)
        ensures
            r@ == self@,
    {
        Vertex { position: self.position.clone(), normal: self.normal.clone() }
    }
}

impl Vertex {
    /// A vertex of the given position and normal.
    pub fn new(pos: Triple, norm: Triple) -> (r: Vertex)
        ensures
            r@ == (Point { position: pos@, normal: norm@ }),
    {
        Vertex { position: pos, normal: norm }
    }
}

/// The record kind that the words of a line select.
pub open spec fn kind_of(t: Seq<Seq<char>>) -> RecordKind {
    if t.len() == 0 {
        RecordKind::Ignored
    } else if t[0] == seq!['v'] {
        RecordKind::Position
    } else if t[0] == seq!['v', 'n'] {
        RecordKind::Normal
    } else if t[0] == seq!['f'] {
        RecordKind::Face
    } else {
        RecordKind::Ignored
    }
}

/// The words of a record after the first, which names its kind.
pub open spec fn fields_of(t: Seq<Seq<char>>) -> Seq<Seq<char>> {
    t.subrange(1, t.len() as int)
}

/// The three coordinates of a position or normal record, or the format error
/// of the line: its fields must be exactly three, each a floating-point
/// literal; the first that is not one is named.
pub open spec fn triple_of(line: Seq<char>, f: Seq<Seq<char>>) -> Result<Text3, Failure> {
    if f.len() != 3 {
        Err(Failure::Arity { line, expected: 3, actual: f.len() })
    } else if !is_float_literal(f[0]) {
        Err(Failure::Token { line, token: f[0] })
    } else if !is_float_literal(f[1]) {
        Err(Failure::Token { line, token: f[1] })
    } else if !is_float_literal(f[2]) {
        Err(Failure::Token { line, token: f[2] })
    } else {
        Ok((f[0], f[1], f[2]))
    }
}

/// The first index at or after `i` that holds a slash, or the length of `s`
/// where none does.
pub open spec fn slash_end(s: Seq<char>, i: int) -> int
    decreases s.len() - i,
{
    if i < 0 || i >= s.len() || s[i] == '/' {
        i
    } else {
        slash_end(s, i + 1)
    }
}

/// The position token and the normal token of a field group: the first and
/// the third of its slash-separated fields. A group with fewer than three
/// fields has none.
pub open spec fn group_fields(g: Seq<char>) -> Option<(Seq<char>, Seq<char>)> {
    let a = slash_end(g, 0);
    let b = slash_end(g, a + 1);
    let c = slash_end(g, b + 1);
    if a < g.len() && b < g.len() {
        Some((g.subrange(0, a), g.subrange(b + 1, c)))
    } else {
        None
    }
}

/// The position index and the normal index that a field group names, where it
/// has both tokens and both are indices.
pub open spec fn group_of(g: Seq<char>) -> Option<(usize, usize)> {
    match group_fields(g) {
        Some((p, n)) => match (index_of(p), index_of(n)) {
            (Some(a), Some(b)) => Some((a, b)),
            _ => None,
        },
        None => None,
    }
}

/// The indices of a face record: the position index of each corner, then the
/// normal index of each.
pub ghost struct Corners {
    pub position: Seq<usize>,
    pub normal: Seq<usize>,
}

/// The indices of a face record, or the format error of the line: its fields
/// must be exactly three field groups; the first that does not name two
/// indices is named.
pub open spec fn face_of(line: Seq<char>, f: Seq<Seq<char>>) -> Result<Corners, Failure> {
    if f.len() != 3 {
        Err(Failure::Arity { line, expected: 3, actual: f.len() })
    } else if group_of(f[0]) is None {
        Err(Failure::Token { line, token: f[0] })
    } else if group_of(f[1]) is None {
        Err(Failure::Token { line, token: f[1] })
    } else if group_of(f[2]) is None {
        Err(Failure::Token { line, token: f[2] })
    } else {
        Ok(
            Corners {
                position: seq![
                    group_of(f[0]).unwrap().0,
                    group_of(f[1]).unwrap().0,
                    group_of(f[2]).unwrap().0,
                ],
                normal: seq![
                    group_of(f[0]).unwrap().1,
                    group_of(f[1]).unwrap().1,
                    group_of(f[2]).unwrap().1,
                ],
            },
        )
    }
}

/// The index of the first slash at or after `i`.
fn scan_slash(s: &str, n: usize, i: usize) -> (j: usize)
    requires
        n == s@.len(),
        i <= n,
    ensures
        j == slash_end(s@, i as int),
        i <= j <= n,
{
    let mut j: usize = i;
    while j < n && s.get_char(j) != '/'
        invariant
            n == s@.len(),
            i <= j <= n,
            slash_end(s@, i as int) == slash_end(s@, j as int),
        decreases n - j,
    {
        j = j + 1;
    }
    j
}

/// Classifies a line by its first word.
pub fn classify(t: &Vec<&str>) -> (r: RecordKind)
    ensures
        r == kind_of(crate::tokenizer::texts(t@)),
{
    if t.len() == 0 {
        return RecordKind::Ignored;
    }
    let w: &str = t[0];
    assert(crate::tokenizer::texts(t@)[0] == w@);
    let n: usize = w.unicode_len();
    if n == 1 && w.get_char(0) == 'v' {
        assert(w@ =~= seq!['v']);
        RecordKind::Position
    } else if n == 2 && w.get_char(0) == 'v' && w.get_char(1) == 'n' {
        assert(w@ =~= seq!['v', 'n']);
        RecordKind::Normal
    } else if n == 1 && w.get_char(0) == 'f' {
        assert(w@ =~= seq!['f']);
        RecordKind::Face
    } else {
        assert(seq!['v'].len() == 1 && seq!['v'][0] == 'v');
        assert(seq!['f'].len() == 1 && seq!['f'][0] == 'f');
        assert(seq!['v', 'n'].len() == 2 && seq!['v', 'n'][0] == 'v' && seq!['v', 'n'][1] == 'n');
        RecordKind::Ignored
    }
}

/// Reads one field group of a face record: the position index and the normal
/// index, with the field between them passed over.
pub fn parse_group(g: &str) -> (r: Option<(usize, usize)>)
    ensures
        r == group_of(g@),
{
    let n: usize = g.unicode_len();
    let a: usize = scan_slash(g, n, 0);
    if a >= n {
        return None;
    }
    let b: usize = scan_slash(g, n, a + 1);
    if b >= n {
        return None;
    }
    let c: usize = scan_slash(g, n, b + 1);
    let p: &str = g.substring_char(0, a);
    let q: &str = g.substring_char(b + 1, c);
    match (parse_index(p), parse_index(q)) {
        (Some(i), Some(j)) => Some((i, j)),
        _ => None,
    }
}

} // verus!
