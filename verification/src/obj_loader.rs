use crate::record::{
    classify, face_of, fields_of, kind_of, parse_group, triple_of, Corners, Failure, LoadError,
    Point, RecordKind, TableKind, Text3, Triple, Vertex,
};
use crate::laws::{
    kind_lines, lemma_counts, lemma_output_grows, lemma_run_well_formed, lemma_table_grows,
    well_formed,
};
use crate::number::is_float;
use crate::tokenizer::{texts, tokens, words};
use vstd::prelude::*;
use vstd::slice::slice_subrange;

verus! {

/// The mathematical value of an [`ObjBuffer`]: the two tables, in the order in
/// which their records came, and the triangle corners put out so far.
pub ghost struct Mesh {
    pub positions: Seq<Text3>,
    pub normals: Seq<Text3>,
    pub output: Seq<Point>,
}

/// The mesh before any line is read.
pub open spec fn empty_mesh() -> Mesh {
    Mesh { positions: Seq::empty(), normals: Seq::empty(), output: Seq::empty() }
}

/// Whether a one-based index points into a table of the given length.
pub open spec fn in_table(index: usize, length: nat) -> bool {
    1 <= index <= length
}

/// Corner `k` of a face: the position and the normal that its two indices
/// select, counted from one.
pub open spec fn corner(m: Mesh, c: Corners, k: int) -> Point {
    Point { position: m.positions[c.position[k] - 1], normal: m.normals[c.normal[k] - 1] }
}

/// The failure for an index that points outside its table.
pub open spec fn dangling(index: usize, table: TableKind, length: nat) -> Failure {
    Failure::Reference { index: index as nat, table, length }
}

/// The three corners of a face, or the reference error of the first index
/// outside its table: the three position indices are looked at first, in
/// order, then the three normal indices.
pub open spec fn resolve(m: Mesh, c: Corners) -> Result<Seq<Point>, Failure> {
    let np = m.positions.len();
    let nn = m.normals.len();
    if !in_table(c.position[0], np) {
        Err(dangling(c.position[0], TableKind::Position, np))
    } else if !in_table(c.position[1], np) {
        Err(dangling(c.position[1], TableKind::Position, np))
    } else if !in_table(c.position[2], np) {
        Err(dangling(c.position[2], TableKind::Position, np))
    } else if !in_table(c.normal[0], nn) {
        Err(dangling(c.normal[0], TableKind::Normal, nn))
    } else if !in_table(c.normal[1], nn) {
        Err(dangling(c.normal[1], TableKind::Normal, nn))
    } else if !in_table(c.normal[2], nn) {
        Err(dangling(c.normal[2], TableKind::Normal, nn))
    } else {
        Ok(seq![corner(m, c, 0), corner(m, c, 1), corner(m, c, 2)])
    }
}

/// What one line does to the mesh: a position or normal record grows its
/// table by one, a face record grows the output by its three corners, any
/// other line changes nothing. A record that is ill formed or that refers
/// outside a table gives the failure instead.
pub open spec fn step(m: Mesh, line: Seq<char>) -> Result<Mesh, Failure> {
    let t = tokens(line);
    match kind_of(t) {
        RecordKind::Ignored => Ok(m),
        RecordKind::Position => match triple_of(line, fields_of(t)) {
            Ok(p) => Ok(Mesh { positions: m.positions.push(p), ..m }),
            Err(e) => Err(e),
        },
        RecordKind::Normal => match triple_of(line, fields_of(t)) {
            Ok(p) => Ok(Mesh { normals: m.normals.push(p), ..m }),
            Err(e) => Err(e),
        },
        RecordKind::Face => match face_of(line, fields_of(t)) {
            Ok(c) => match resolve(m, c) {
                Ok(ps) => Ok(Mesh { output: m.output + ps, ..m }),
                Err(e) => Err(e),
            },
            Err(e) => Err(e),
        },
    }
}

/// The mesh after the first `n` lines, or the failure of the first line that
/// has one.
pub open spec fn run(lines: Seq<Seq<char>>, n: nat) -> Result<Mesh, Failure>
    decreases n,
{
    if n == 0 {
        Ok(empty_mesh())
    } else {
        match run(lines, (n - 1) as nat) {
            Ok(m) => step(m, lines[n - 1]),
            Err(e) => Err(e),
        }
    }
}

/// What a load gave, as a mathematical value: the mesh of the buffer, or the
/// failure.
pub open spec fn outcome(r: Result<ObjBuffer, LoadError>) -> Result<Mesh, Failure> {
    match r {
        Ok(b) => Ok(b@),
        Err(e) => Err(e@),
    }
}

/// The texts of a vector of lines.
pub open spec fn line_texts(v: Seq<String>) -> Seq<Seq<char>> {
    Seq::new(v.len(), |i: int| v[i]@)
}

/// The values of a vector of triples.
pub open spec fn triples(v: Seq<Triple>) -> Seq<Text3> {
    Seq::new(v.len(), |i: int| v[i]@)
}

/// The values of a vector of vertices.
pub open spec fn points(v: Seq<Vertex>) -> Seq<Point> {
    Seq::new(v.len(), |i: int| v[i]@)
}

/// The tables of positions and normals read so far, and the triangle list
/// built from them: three vertices for each face, in the order of the faces.
#[derive(Debug)]
pub struct ObjBuffer {
    vertices: Vec<Triple>,
    normals: Vec<Triple>,
    objects: Vec<Vertex>,
}

impl View for ObjBuffer {
    type V = Mesh;

    closed spec fn view(&self) -> Mesh {
        Mesh {
            positions: triples(self.vertices@),
            normals: triples(self.normals@),
            output: points(self.objects@),
        }
    }
}

/// Reads the three coordinates of a position or normal record from the
/// fields of its line.
pub fn parse_triple(line: &str, fields: &[&str]) -> (r: Result<Triple, LoadError>)
    ensures
        match triple_of(line@, texts(fields@)) {
            Ok(p) => r is Ok && r->Ok_0@ == p,
            Err(e) => r is Err && r->Err_0@ == e,
        },
{
    let ghost f = texts(fields@);
    if fields.len() != 3 {
        return Err(LoadError::Arity { line: line.to_owned(), expected: 3, actual: fields.len() });
    }
    assert(f[0] == fields[0]@ && f[1] == fields[1]@ && f[2] == fields[2]@);
    if !is_float(fields[0]) {
        return Err(LoadError::Token { line: line.to_owned(), token: fields[0].to_owned() });
    }
    if !is_float(fields[1]) {
        return Err(LoadError::Token { line: line.to_owned(), token: fields[1].to_owned() });
    }
    if !is_float(fields[2]) {
        return Err(LoadError::Token { line: line.to_owned(), token: fields[2].to_owned() });
    }
    Ok(Triple { x: fields[0].to_owned(), y: fields[1].to_owned(), z: fields[2].to_owned() })
}

/// Tests a one-based index against the length of its table.
pub fn check_index(index: usize, table: TableKind, length: usize) -> (r: Result<(), LoadError>)
    ensures
        r is Ok <==> in_table(index, length as nat),
        r is Err ==> r->Err_0@ == dangling(index, table, length as nat),
{
    if index == 0 || index > length {
        Err(LoadError::Reference { index, table, length })
    } else {
        Ok(())
    }
}

impl ObjBuffer {
    /// Whether the buffer is well formed: every coordinate that it holds is a
    /// floating-point literal, and its output is whole triangles. A new
    /// buffer is, and every method keeps it so.
    pub open spec fn wf(&self) -> bool {
        well_formed(self@)
    }

    /// A buffer with empty tables and no output.
    pub fn new() -> (r: ObjBuffer)
        ensures
            r@ == empty_mesh(),
            r.wf(),
    {
        let r = ObjBuffer { vertices: Vec::new(), normals: Vec::new(), objects: Vec::new() };
        assert(r@.positions =~= Seq::empty());
        assert(r@.normals =~= Seq::empty());
        assert(r@.output =~= Seq::empty());
        r
    }

    /// Reads a position record and appends it to the position table.
    pub fn parse_vertex(&mut self, line: &str, fields: &[&str]) -> (r: Result<(), LoadError>)
        ensures
            match triple_of(line@, texts(fields@)) {
                Ok(p) => r is Ok && final(self)@ == (Mesh {
                    positions: old(self)@.positions.push(p),
                    ..old(self)@
                }),
                Err(e) => r is Err && r->Err_0@ == e && final(self)@ == old(self)@,
            },
            old(self).wf() ==> final(self).wf(),
    {
        match parse_triple(line, fields) {
            Ok(p) => {
                self.vertices.push(p);
                assert(final(self)@.positions =~= old(self)@.positions.push(p@));
                proof {
                    if old(self).wf() {
                        lemma_table_grows(old(self)@, p@);
                    }
                }
                Ok(())
            },
            Err(e) => Err(e),
        }
    }

    /// Reads a normal record and appends it to the normal table.
    pub fn parse_normal(&mut self, line: &str, fields: &[&str]) -> (r: Result<(), LoadError>)
        ensures
            match triple_of(line@, texts(fields@)) {
                Ok(p) => r is Ok && final(self)@ == (Mesh {
                    normals: old(self)@.normals.push(p),
                    ..old(self)@
                }),
                Err(e) => r is Err && r->Err_0@ == e && final(self)@ == old(self)@,
            },
            old(self).wf() ==> final(self).wf(),
    {
        match parse_triple(line, fields) {
            Ok(p) => {
                self.normals.push(p);
                assert(final(self)@.normals =~= old(self)@.normals.push(p@));
                proof {
                    if old(self).wf() {
                        lemma_table_grows(old(self)@, p@);
                    }
                }
                Ok(())
            },
            Err(e) => Err(e),
        }
    }

    /// The vertex that a position index and a normal index select.
    fn vertex_at(&self, vi: usize, ni: usize) -> (r: Vertex)
        requires
            in_table(vi, self@.positions.len()),
            in_table(ni, self@.normals.len()),
        ensures
            r@ == (Point { position: self@.positions[vi - 1], normal: self@.normals[ni - 1] }),
    {
        let normal = self.normals[ni - 1].clone();
        let position = self.vertices[vi - 1].clone();
        Vertex::new(position, normal)
    }

    /// Appends the three corners of a face to the output: for each corner the
    /// position and the normal that its indices select, counted from one. An
    /// index outside its table is refused, and nothing is appended.
    pub fn add_vertices(&mut self, vi: [usize; 3], ni: [usize; 3]) -> (r: Result<(), LoadError>)
        ensures
            match resolve(old(self)@, Corners { position: vi@, normal: ni@ }) {
                Ok(ps) => r is Ok && final(self)@ == (Mesh {
                    output: old(self)@.output + ps,
                    ..old(self)@
                }),
                Err(e) => r is Err && r->Err_0@ == e && final(self)@ == old(self)@,
            },
            old(self).wf() ==> final(self).wf(),
    {
        let np: usize = self.vertices.len();
        let nn: usize = self.normals.len();
        if let Err(e) = check_index(vi[0], TableKind::Position, np) {
            return Err(e);
        }
        if let Err(e) = check_index(vi[1], TableKind::Position, np) {
            return Err(e);
        }
        if let Err(e) = check_index(vi[2], TableKind::Position, np) {
            return Err(e);
        }
        if let Err(e) = check_index(ni[0], TableKind::Normal, nn) {
            return Err(e);
        }
        if let Err(e) = check_index(ni[1], TableKind::Normal, nn) {
            return Err(e);
        }
        if let Err(e) = check_index(ni[2], TableKind::Normal, nn) {
            return Err(e);
        }
        let a = self.vertex_at(vi[0], ni[0]);
        let b = self.vertex_at(vi[1], ni[1]);
        let c = self.vertex_at(vi[2], ni[2]);
        self.objects.push(a);
        self.objects.push(b);
        self.objects.push(c);
        assert(final(self)@.output =~= old(self)@.output + seq![a@, b@, c@]);
        proof {
            if old(self).wf() {
                lemma_output_grows(old(self)@, Corners { position: vi@, normal: ni@ });
            }
        }
        Ok(())
    }

    /// Reads a face record, resolves its three field groups against the
    /// tables and appends the three corners to the output.
    pub fn parse_face(&mut self, line: &str, fields: &[&str]) -> (r: Result<(), LoadError>)
        ensures
            match face_of(line@, texts(fields@)) {
                Ok(c) => match resolve(old(self)@, c) {
                    Ok(ps) => r is Ok && final(self)@ == (Mesh {
                        output: old(self)@.output + ps,
                        ..old(self)@
                    }),
                    Err(e) => r is Err && r->Err_0@ == e && final(self)@ == old(self)@,
                },
                Err(e) => r is Err && r->Err_0@ == e && final(self)@ == old(self)@,
            },
            old(self).wf() ==> final(self).wf(),
    {
        let ghost f = texts(fields@);
        if fields.len() != 3 {
            return Err(
                LoadError::Arity { line: line.to_owned(), expected: 3, actual: fields.len() },
            );
        }
        assert(f[0] == fields[0]@ && f[1] == fields[1]@ && f[2] == fields[2]@);
        let (v0, n0) = match parse_group(fields[0]) {
            Some(g) => g,
            None => {
                return Err(
                    LoadError::Token { line: line.to_owned(), token: fields[0].to_owned() },
                );
            },
        };
        let (v1, n1) = match parse_group(fields[1]) {
            Some(g) => g,
            None => {
                return Err(
                    LoadError::Token { line: line.to_owned(), token: fields[1].to_owned() },
                );
            },
        };
        let (v2, n2) = match parse_group(fields[2]) {
            Some(g) => g,
            None => {
                return Err(
                    LoadError::Token { line: line.to_owned(), token: fields[2].to_owned() },
                );
            },
        };
        let vertex_index: [usize; 3] = [v0, v1, v2];
        let normal_index: [usize; 3] = [n0, n1, n2];
        assert(vertex_index@ =~= seq![v0, v1, v2]);
        assert(normal_index@ =~= seq![n0, n1, n2]);
        self.add_vertices(vertex_index, normal_index)
    }

    /// Reads one line: tokenizes it, classifies it by its first word and
    /// applies the record. On a failure the buffer is left as it was.
    pub fn add_line(&mut self, line: &str) -> (r: Result<(), LoadError>)
        ensures
            match step(old(self)@, line@) {
                Ok(m) => r is Ok && final(self)@ == m,
                Err(e) => r is Err && r->Err_0@ == e && final(self)@ == old(self)@,
            },
            old(self).wf() ==> final(self).wf(),
    {
        let t = words(line);
        let kind = classify(&t);
        if kind == RecordKind::Ignored {
            return Ok(());
        }
        let fields = slice_subrange(t.as_slice(), 1, t.len());
        assert(texts(fields@) =~= fields_of(tokens(line@)));
        match kind {
            RecordKind::Position => self.parse_vertex(line, fields),
            RecordKind::Normal => self.parse_normal(line, fields),
            _ => self.parse_face(line, fields),
        }
    }

    /// Loads a mesh from the lines of its description, in order. The first
    /// line that fails ends the load, and no buffer is returned.
    pub fn load(lines: &Vec<String>) -> (r: Result<ObjBuffer, LoadError>)
        ensures
            outcome(r) == run(line_texts(lines@), lines@.len()),
            r is Ok ==> r->Ok_0@.output.len() == 3 * kind_lines(
                line_texts(lines@),
                lines@.len(),
                RecordKind::Face,
            ),
            r is Ok ==> r->Ok_0.wf(),
    {
        let mut dat = ObjBuffer::new();
        let ghost ls = line_texts(lines@);
        let mut i: usize = 0;
        while i < lines.len()
            invariant
                0 <= i <= lines.len(),
                ls == line_texts(lines@),
                run(ls, i as nat) == Ok::<Mesh, Failure>(dat@),
            decreases lines.len() - i,
        {
            assert(ls[i as int] == lines[i as int]@);
            match dat.add_line(lines[i].as_str()) {
                Ok(()) => {},
                Err(e) => {
                    proof {
                        lemma_run_stays_failed(ls, (i + 1) as nat, lines@.len());
                    }
                    return Err(e);
                },
            }
            i = i + 1;
        }
        proof {
            lemma_counts(ls, lines@.len());
            lemma_run_well_formed(ls, lines@.len());
        }
        Ok(dat)
    }

    /// The number of vertices in the output: three for each face.
    pub fn len(&self) -> (n: usize)
        ensures
            n == self@.output.len(),
            self.wf() ==> n % 3 == 0,
    {
        self.objects.len()
    }

    /// The output: the vertices of the triangles, three for each face.
    pub fn objects(&self) -> (r: &Vec<Vertex>)
        ensures
            points(r@) == self@.output,
    {
        &self.objects
    }
}

/// Once a line has failed, the load has failed with that line's failure,
/// whatever follows.
pub proof fn lemma_run_stays_failed(lines: Seq<Seq<char>>, k: nat, n: nat)
    requires
        k <= n,
        run(lines, k) is Err,
    ensures
        run(lines, n) == run(lines, k),
    decreases n,
{
    if k < n {
        lemma_run_stays_failed(lines, k, (n - 1) as nat);
    }
}

} // verus!
