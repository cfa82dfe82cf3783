use crate::number::is_float_literal;
use crate::obj_loader::{
    corner, in_table, lemma_run_stays_failed, line_texts, outcome, resolve, run, step, Mesh,
    ObjBuffer,
};
use crate::record::{
    face_of, fields_of, kind_of, triple_of, Corners, Failure, LoadError, RecordKind, Text3,
};
use crate::tokenizer::tokens;
use vstd::prelude::*;

verus! {

/// The kind of record that a line holds.
pub open spec fn line_kind(line: Seq<char>) -> RecordKind {
    kind_of(tokens(line))
}

/// The fields of a line: its words after the first.
pub open spec fn line_fields(line: Seq<char>) -> Seq<Seq<char>> {
    fields_of(tokens(line))
}

/// How many of the first `n` lines hold a record of the given kind.
pub open spec fn kind_lines(lines: Seq<Seq<char>>, n: nat, kind: RecordKind) -> nat
    decreases n,
{
    if n == 0 {
        0
    } else if line_kind(lines[n - 1]) == kind {
        kind_lines(lines, (n - 1) as nat, kind) + 1
    } else {
        kind_lines(lines, (n - 1) as nat, kind)
    }
}

/// Whether `b` holds all that `a` holds, in the same places: each table and
/// the output of `a` begin those of `b`.
pub open spec fn extends(a: Mesh, b: Mesh) -> bool {
    &&& a.positions.is_prefix_of(b.positions)
    &&& a.normals.is_prefix_of(b.normals)
    &&& a.output.is_prefix_of(b.output)
}

/// Whether each coordinate of a triple is a floating-point literal.
pub open spec fn literal3(t: Text3) -> bool {
    is_float_literal(t.0) && is_float_literal(t.1) && is_float_literal(t.2)
}

/// Whether every coordinate that a mesh holds, in its tables and in its
/// output, is a floating-point literal.
pub open spec fn all_literals(m: Mesh) -> bool {
    &&& forall|i: int| 0 <= i < m.positions.len() ==> literal3(#[trigger] m.positions[i])
    &&& forall|i: int| 0 <= i < m.normals.len() ==> literal3(#[trigger] m.normals[i])
    &&& forall|i: int|
        0 <= i < m.output.len() ==> literal3((#[trigger] m.output[i]).position) && literal3(
            m.output[i].normal,
        )
}

/// Loading is a function of the text: two loads of lines that read the same
/// end alike, with equal meshes or with equal failures.
pub proof fn lemma_load_is_a_function(
    a: Seq<String>,
    b: Seq<String>,
    ra: Result<ObjBuffer, LoadError>,
    rb: Result<ObjBuffer, LoadError>,
)
    requires
        line_texts(a) == line_texts(b),
        outcome(ra) == run(line_texts(a), a.len()),
        outcome(rb) == run(line_texts(b), b.len()),
    ensures
        outcome(ra) == outcome(rb),
{
    assert(a.len() == line_texts(a).len());
    assert(b.len() == line_texts(b).len());
}

/// A line never removes or moves what the mesh holds: it only appends.
pub proof fn lemma_step_extends(m: Mesh, line: Seq<char>)
    requires
        step(m, line) is Ok,
    ensures
        extends(m, step(m, line)->Ok_0),
{
    let r = step(m, line)->Ok_0;
    assert(m.positions =~= r.positions.subrange(0, m.positions.len() as int));
    assert(m.normals =~= r.normals.subrange(0, m.normals.len() as int));
    assert(m.output =~= r.output.subrange(0, m.output.len() as int));
}

/// A load that succeeds on `n` lines succeeds on every prefix of them, and
/// what the prefix gave is still in place at the end.
pub proof fn lemma_run_prefix(lines: Seq<Seq<char>>, k: nat, n: nat)
    requires
        k <= n,
        run(lines, n) is Ok,
    ensures
        run(lines, k) is Ok,
        extends(run(lines, k)->Ok_0, run(lines, n)->Ok_0),
    decreases n,
{
    let last = run(lines, n)->Ok_0;
    if k == n {
        assert(last.positions =~= last.positions.subrange(0, last.positions.len() as int));
        assert(last.normals =~= last.normals.subrange(0, last.normals.len() as int));
        assert(last.output =~= last.output.subrange(0, last.output.len() as int));
    } else {
        let before = run(lines, (n - 1) as nat)->Ok_0;
        lemma_run_prefix(lines, k, (n - 1) as nat);
        lemma_step_extends(before, lines[n - 1]);
        let first = run(lines, k)->Ok_0;
        assert(first.positions =~= last.positions.subrange(0, first.positions.len() as int));
        assert(first.normals =~= last.normals.subrange(0, first.normals.len() as int));
        assert(first.output =~= last.output.subrange(0, first.output.len() as int));
    }
}

/// After a load that succeeds, the output holds three vertices for each face
/// line, and each table one entry for each line of its kind.
pub proof fn lemma_counts(lines: Seq<Seq<char>>, n: nat)
    requires
        run(lines, n) is Ok,
    ensures
        run(lines, n)->Ok_0.output.len() == 3 * kind_lines(lines, n, RecordKind::Face),
        run(lines, n)->Ok_0.positions.len() == kind_lines(lines, n, RecordKind::Position),
        run(lines, n)->Ok_0.normals.len() == kind_lines(lines, n, RecordKind::Normal),
    decreases n,
{
    if n > 0 {
        lemma_counts(lines, (n - 1) as nat);
    }
}

/// The triangles come out in the order of the face lines, and the corners of
/// each in the order of its field groups: where line `k` is the face line
/// number `j`, counted from zero, the output holds at `3 * j`, `3 * j + 1` and
/// `3 * j + 2` the three corners of that line, resolved against the tables as
/// they stood when the line was read.
pub proof fn lemma_triangle_order(lines: Seq<Seq<char>>, n: nat, k: nat)
    requires
        k < n,
        run(lines, n) is Ok,
        line_kind(lines[k as int]) == RecordKind::Face,
    ensures
        run(lines, k) is Ok,
        face_of(lines[k as int], line_fields(lines[k as int])) is Ok,
        ({
            let then = run(lines, k)->Ok_0;
            let c = face_of(lines[k as int], line_fields(lines[k as int]))->Ok_0;
            let j = kind_lines(lines, k, RecordKind::Face) as int;
            let out = run(lines, n)->Ok_0.output;
            &&& 3 * j + 3 <= out.len()
            &&& out[3 * j] == corner(then, c, 0)
            &&& out[3 * j + 1] == corner(then, c, 1)
            &&& out[3 * j + 2] == corner(then, c, 2)
        }),
{
    lemma_run_prefix(lines, (k + 1) as nat, n);
    lemma_run_prefix(lines, k, (k + 1) as nat);
    lemma_counts(lines, k);
    let then = run(lines, k)->Ok_0;
    let next = run(lines, (k + 1) as nat)->Ok_0;
    assert(run(lines, (k + 1) as nat) == step(then, lines[k as int]));
    let c = face_of(lines[k as int], line_fields(lines[k as int]))->Ok_0;
    let ps = resolve(then, c)->Ok_0;
    assert(next.output == then.output + ps);
    let j = kind_lines(lines, k, RecordKind::Face) as int;
    let out = run(lines, n)->Ok_0.output;
    assert(next.output =~= out.subrange(0, next.output.len() as int));
    assert(next.output[3 * j] == ps[0]);
    assert(next.output[3 * j + 1] == ps[1]);
    assert(next.output[3 * j + 2] == ps[2]);
    assert(out.subrange(0, next.output.len() as int)[3 * j] == out[3 * j]);
    assert(out.subrange(0, next.output.len() as int)[3 * j + 1] == out[3 * j + 1]);
    assert(out.subrange(0, next.output.len() as int)[3 * j + 2] == out[3 * j + 2]);
}

/// The tables keep the order of the input: where line `k` is the position
/// line number `j`, counted from zero, entry `j` of the position table is the
/// triple of that line, so that the index `j + 1` of a later face selects it;
/// and likewise for the normals.
pub proof fn lemma_table_order(lines: Seq<Seq<char>>, n: nat, k: nat)
    requires
        k < n,
        run(lines, n) is Ok,
    ensures
        line_kind(lines[k as int]) == RecordKind::Position ==> {
            let j = kind_lines(lines, k, RecordKind::Position);
            &&& j < run(lines, n)->Ok_0.positions.len()
            &&& Ok::<Text3, Failure>(run(lines, n)->Ok_0.positions[j as int]) == triple_of(
                lines[k as int],
                line_fields(lines[k as int]),
            )
        },
        line_kind(lines[k as int]) == RecordKind::Normal ==> {
            let j = kind_lines(lines, k, RecordKind::Normal);
            &&& j < run(lines, n)->Ok_0.normals.len()
            &&& Ok::<Text3, Failure>(run(lines, n)->Ok_0.normals[j as int]) == triple_of(
                lines[k as int],
                line_fields(lines[k as int]),
            )
        },
{
    lemma_run_prefix(lines, (k + 1) as nat, n);
    lemma_run_prefix(lines, k, (k + 1) as nat);
    lemma_counts(lines, k);
    let then = run(lines, k)->Ok_0;
    let next = run(lines, (k + 1) as nat)->Ok_0;
    let last = run(lines, n)->Ok_0;
    assert(run(lines, (k + 1) as nat) == step(then, lines[k as int]));
    assert(next.positions =~= last.positions.subrange(0, next.positions.len() as int));
    assert(next.normals =~= last.normals.subrange(0, next.normals.len() as int));
    if line_kind(lines[k as int]) == RecordKind::Position {
        let j = kind_lines(lines, k, RecordKind::Position);
        assert(last.positions.subrange(0, next.positions.len() as int)[j as int]
            == last.positions[j as int]);
    }
    if line_kind(lines[k as int]) == RecordKind::Normal {
        let j = kind_lines(lines, k, RecordKind::Normal);
        assert(last.normals.subrange(0, next.normals.len() as int)[j as int]
            == last.normals[j as int]);
    }
}

/// A face whose indices all point into their tables resolves, and corner `k`
/// is entry `i - 1` of the position table and entry `j - 1` of the normal
/// table, where `i` and `j` are the indices of its field group `k`.
pub proof fn lemma_resolved_corner(m: Mesh, c: Corners, k: int)
    requires
        0 <= k < 3,
        forall|i: int| 0 <= i < 3 ==> in_table(#[trigger] c.position[i], m.positions.len()),
        forall|i: int| 0 <= i < 3 ==> in_table(#[trigger] c.normal[i], m.normals.len()),
    ensures
        resolve(m, c) is Ok,
        resolve(m, c)->Ok_0.len() == 3,
        resolve(m, c)->Ok_0[k].position == m.positions[c.position[k] - 1],
        resolve(m, c)->Ok_0[k].normal == m.normals[c.normal[k] - 1],
{
    assert(in_table(c.position[0], m.positions.len()));
    assert(in_table(c.position[1], m.positions.len()));
    assert(in_table(c.position[2], m.positions.len()));
    assert(in_table(c.normal[0], m.normals.len()));
    assert(in_table(c.normal[1], m.normals.len()));
    assert(in_table(c.normal[2], m.normals.len()));
}

/// A face line with an index that is zero, or greater than the length of its
/// table as it stands, fails with a reference error.
pub proof fn lemma_dangling_index_fails(m: Mesh, line: Seq<char>, k: int)
    requires
        line_kind(line) == RecordKind::Face,
        face_of(line, line_fields(line)) is Ok,
        0 <= k < 3,
        ({
            let c = face_of(line, line_fields(line))->Ok_0;
            ||| c.position[k] == 0
            ||| c.position[k] > m.positions.len()
            ||| c.normal[k] == 0
            ||| c.normal[k] > m.normals.len()
        }),
    ensures
        step(m, line) is Err,
        step(m, line)->Err_0 is Reference,
{
}

/// A face line that does not have exactly three field groups fails with a
/// format error that gives the three expected and the number found.
pub proof fn lemma_face_arity(m: Mesh, line: Seq<char>)
    requires
        line_kind(line) == RecordKind::Face,
        line_fields(line).len() != 3,
    ensures
        step(m, line) == Err::<Mesh, Failure>(
            Failure::Arity { line, expected: 3, actual: line_fields(line).len() },
        ),
{
}

/// A load ends with the failure of the first line that fails: where the lines
/// before line `k` load and line `k` fails, the load of any number of lines
/// past `k` gives that failure, and so no output.
pub proof fn lemma_first_failure_ends_load(lines: Seq<Seq<char>>, n: nat, k: nat)
    requires
        k < n,
        run(lines, k) is Ok,
        step(run(lines, k)->Ok_0, lines[k as int]) is Err,
    ensures
        run(lines, n) is Err,
        run(lines, n)->Err_0 == step(run(lines, k)->Ok_0, lines[k as int])->Err_0,
{
    assert(run(lines, (k + 1) as nat) == step(run(lines, k)->Ok_0, lines[k as int]));
    lemma_run_stays_failed(lines, (k + 1) as nat, n);
}

/// Whether a mesh is well formed: every coordinate is a floating-point
/// literal, and the output is whole triangles.
pub open spec fn well_formed(m: Mesh) -> bool {
    all_literals(m) && m.output.len() % 3 == 0
}

/// A table that takes a triple of literals keeps the mesh well formed.
pub proof fn lemma_table_grows(m: Mesh, p: Text3)
    requires
        well_formed(m),
        literal3(p),
    ensures
        well_formed(Mesh { positions: m.positions.push(p), ..m }),
        well_formed(Mesh { normals: m.normals.push(p), ..m }),
{
    let a = m.positions.push(p);
    assert forall|i: int| 0 <= i < a.len() implies literal3(#[trigger] a[i]) by {
        if i < m.positions.len() {
            assert(a[i] == m.positions[i]);
        }
    }
    let b = m.normals.push(p);
    assert forall|i: int| 0 <= i < b.len() implies literal3(#[trigger] b[i]) by {
        if i < m.normals.len() {
            assert(b[i] == m.normals[i]);
        }
    }
}

/// An output that takes the corners of a face keeps the mesh well formed.
pub proof fn lemma_output_grows(m: Mesh, c: Corners)
    requires
        well_formed(m),
        resolve(m, c) is Ok,
    ensures
        well_formed(Mesh { output: m.output + resolve(m, c)->Ok_0, ..m }),
{
    let ps = resolve(m, c)->Ok_0;
    let out = m.output + ps;
    assert forall|i: int| 0 <= i < out.len() implies literal3((#[trigger] out[i]).position)
        && literal3(out[i].normal) by {
        if i >= m.output.len() {
            let d = i - m.output.len();
            assert(out[i] == ps[d]);
            assert(ps[d] == corner(m, c, d));
            assert(literal3(m.positions[c.position[d] - 1]));
            assert(literal3(m.normals[c.normal[d] - 1]));
        } else {
            assert(out[i] == m.output[i]);
        }
    }
}

/// A line keeps the mesh well formed.
pub proof fn lemma_step_well_formed(m: Mesh, line: Seq<char>)
    requires
        well_formed(m),
        step(m, line) is Ok,
    ensures
        well_formed(step(m, line)->Ok_0),
{
    let t = tokens(line);
    match kind_of(t) {
        RecordKind::Ignored => {},
        RecordKind::Face => {
            lemma_output_grows(m, face_of(line, fields_of(t))->Ok_0);
        },
        _ => {
            lemma_table_grows(m, triple_of(line, fields_of(t))->Ok_0);
        },
    }
}

/// A load that succeeds gives a well-formed mesh: every coordinate in its
/// tables and its output is a floating-point literal, and the output is whole
/// triangles.
pub proof fn lemma_run_well_formed(lines: Seq<Seq<char>>, n: nat)
    requires
        run(lines, n) is Ok,
    ensures
        well_formed(run(lines, n)->Ok_0),
    decreases n,
{
    if n > 0 {
        lemma_run_well_formed(lines, (n - 1) as nat);
        lemma_step_well_formed(run(lines, (n - 1) as nat)->Ok_0, lines[n - 1]);
    }
}

} // verus!
