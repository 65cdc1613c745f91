//! The boundary export writer.
//!
//! Collects boundaries — their vertices as pre-formatted coordinate
//! texts — together with the constraint and force annotations of their
//! edges, and renders the whole as the textual polygon format: one
//! `polygon` block per boundary, a thickness and material footer, then
//! one line per constraint and per force.  Vertices touched by an
//! annotated edge are labelled; a label is the hexadecimal digest of the
//! vertex's coordinate text.

use vstd::prelude::*;
use vstd::string::StringSliceAdditionalSpecFns;

use crate::bound::Boundary;
use crate::edge::EdgeHandle;
use crate::geom;
use crate::marks::{Annotation, Mark, MarkedBound};

verus! {

/// The 64-bit FNV-1a digest of a byte string.
pub open spec fn fnv64(s: Seq<u8>) -> u64
    decreases s.len(),
{
    if s.len() == 0 {
        0xcbf29ce484222325u64
    } else {
        (fnv64(s.drop_last()) ^ (s.last() as u64)).wrapping_mul(0x100000001b3u64)
    }
}

/// The lower-case hexadecimal digit of a value below sixteen.
pub open spec fn hex_digit(d: int) -> char {
    if d == 0 {
        '0'
    } else if d == 1 {
        '1'
    } else if d == 2 {
        '2'
    } else if d == 3 {
        '3'
    } else if d == 4 {
        '4'
    } else if d == 5 {
        '5'
    } else if d == 6 {
        '6'
    } else if d == 7 {
        '7'
    } else if d == 8 {
        '8'
    } else if d == 9 {
        '9'
    } else if d == 10 {
        'a'
    } else if d == 11 {
        'b'
    } else if d == 12 {
        'c'
    } else if d == 13 {
        'd'
    } else if d == 14 {
        'e'
    } else {
        'f'
    }
}

/// The lower-case hexadecimal numeral of a non-negative value, without
/// leading zeros.
pub open spec fn hex_of(n: int) -> Seq<char>
    decreases n when n >= 0
{
    if n < 16 {
        seq![hex_digit(n)]
    } else {
        hex_of(n / 16).push(hex_digit(n % 16))
    }
}

/// A point label: the hexadecimal FNV-1a digest of the point's
/// coordinate text.
pub open spec fn label_spec(bytes: Seq<u8>) -> Seq<char> {
    hex_of(fnv64(bytes) as int)
}

/// The bytes of an ASCII text, one per character.
pub open spec fn char_bytes(s: Seq<char>) -> Seq<u8> {
    Seq::new(s.len(), |i: int| s[i] as u8)
}

/// The text is plain ASCII, so its bytes are its characters.
pub open spec fn text_bytes_ok(s: String) -> bool {
    vstd::utf8::is_ascii_chars(s@)
}

/// A point label computed from the coordinate text itself.
pub open spec fn label_of_text(s: Seq<char>) -> Seq<char> {
    label_spec(char_bytes(s))
}

fn digit_str(d: u64) -> (r: &'static str)
    requires
        d < 16,
    ensures
        r@ == seq![hex_digit(d as int)],
{
    proof {
        reveal_strlit("0");
        reveal_strlit("1");
        reveal_strlit("2");
        reveal_strlit("3");
        reveal_strlit("4");
        reveal_strlit("5");
        reveal_strlit("6");
        reveal_strlit("7");
        reveal_strlit("8");
        reveal_strlit("9");
        reveal_strlit("a");
        reveal_strlit("b");
        reveal_strlit("c");
        reveal_strlit("d");
        reveal_strlit("e");
        reveal_strlit("f");
    }
    match d {
        0 => "0",
        1 => "1",
        2 => "2",
        3 => "3",
        4 => "4",
        5 => "5",
        6 => "6",
        7 => "7",
        8 => "8",
        9 => "9",
        10 => "a",
        11 => "b",
        12 => "c",
        13 => "d",
        14 => "e",
        _ => "f",
    }
}

/// The lower-case hexadecimal numeral of `n`.
fn to_hex(n: u64) -> (r: String)
    ensures
        r@ == hex_of(n as int),
    decreases n,
{
    if n < 16 {
        digit_str(n).to_owned()
    } else {
        let mut s = to_hex(n / 16);
        s.append(digit_str(n % 16));
        proof {
            assert(hex_of((n / 16) as int) + seq![hex_digit((n % 16) as int)] =~= hex_of(
                (n / 16) as int,
            ).push(hex_digit((n % 16) as int)));
            assert((n / 16) as int == n as int / 16);
            assert((n % 16) as int == n as int % 16);
        }
        s
    }
}

/// The label of a point's coordinate text: the hexadecimal FNV-1a digest
/// of its bytes.
pub fn point_label(p_str: &str) -> (r: String)
    ensures
        r@ == label_spec(p_str.spec_bytes()),
{
    let bytes = p_str.as_bytes();
    let n: usize = bytes.len();
    let mut h: u64 = 0xcbf29ce484222325;
    let mut i: usize = 0;
    proof {
        assert(p_str.spec_bytes().subrange(0, 0) =~= Seq::<u8>::empty());
    }
    while i < n
        invariant
            0 <= i <= n,
            n == p_str.spec_bytes().len(),
            bytes@ == p_str.spec_bytes(),
            h == fnv64(p_str.spec_bytes().subrange(0, i as int)),
        decreases n - i,
    {
        h = (h ^ (bytes[i] as u64)).wrapping_mul(0x100000001b3);
        proof {
            let pre = p_str.spec_bytes().subrange(0, i + 1);
            assert(pre.drop_last() =~= p_str.spec_bytes().subrange(0, i as int));
            assert(pre.last() == p_str.spec_bytes()[i as int]);
        }
        i = i + 1;
    }
    proof {
        assert(p_str.spec_bytes().subrange(0, n as int) =~= p_str.spec_bytes());
    }
    to_hex(h)
}

/// What a constraint is written as: `x`, `y`, `xy`, or nothing.
pub open spec fn spec_format_constraint(c: (bool, bool)) -> Seq<char> {
    (if c.0 {
        "x"@
    } else {
        Seq::<char>::empty()
    }) + (if c.1 {
        "y"@
    } else {
        Seq::<char>::empty()
    })
}

/// Renders a constraint's axes.
pub fn format_constraint(c: (bool, bool)) -> (r: String)
    ensures
        r@ == spec_format_constraint(c),
{
    let mut res = String::new();
    if c.0 {
        res.append("x");
    }
    if c.1 {
        res.append("y");
    }
    proof {
        assert(res@ =~= spec_format_constraint(c));
    }
    res
}

/// Relies on `String::pop`: removes the last character of a non-empty
/// string.
#[verifier::external_body]
fn drop_last_char(s: &mut String)
    requires
        old(s)@.len() > 0,
    ensures
        final(s)@ == old(s)@.drop_last(),
{
    s.pop();
}

/// One polygon vertex as collected: its coordinate text and, if some
/// annotated edge touches it, its label.
pub open spec fn entry_view(e: (String, Option<String>)) -> (Seq<char>, Option<Seq<char>>) {
    (
        e.0@,
        match e.1 {
            Some(l) => Some(l@),
            None => None,
        },
    )
}

/// The views of a polygon's collected vertices.
pub open spec fn entries_view(es: Seq<(String, Option<String>)>) -> Seq<
    (Seq<char>, Option<Seq<char>>),
> {
    es.map_values(|e: (String, Option<String>)| entry_view(e))
}

/// The vertices a boundary contributes, before any labelling: each
/// edge's start point text, unlabelled.
pub open spec fn init_entries(edges: Seq<EdgeHandle>) -> Seq<(Seq<char>, Option<Seq<char>>)> {
    Seq::new(
        edges.len(),
        |i: int| (geom::point_text_of(edges[i].geom.spec_start()), None::<Seq<char>>),
    )
}

/// The writer state a boundary's marks fold into: after the first `k`
/// marks, the labelled vertices and the constraint and force lists.  The
/// mark of edge `k` annotates the edge's two vertices, `k` and `k + 1`
/// (wrapping around), labelling both and recording the annotation under
/// those labels.
pub open spec fn apply_marks(
    entries: Seq<(Seq<char>, Option<Seq<char>>)>,
    cs: Seq<((Seq<char>, Seq<char>), (bool, bool))>,
    fs: Seq<((Seq<char>, Seq<char>), (Seq<char>, Seq<char>))>,
    marks: Seq<Mark>,
    k: int,
) -> (
    Seq<(Seq<char>, Option<Seq<char>>)>,
    Seq<((Seq<char>, Seq<char>), (bool, bool))>,
    Seq<((Seq<char>, Seq<char>), (Seq<char>, Seq<char>))>,
)
    decreases k,
{
    if k <= 0 {
        (entries, cs, fs)
    } else {
        let (e1, c1, f1) = apply_marks(entries, cs, fs, marks, k - 1);
        let i = k - 1;
        let j = if k == entries.len() {
            0int
        } else {
            k
        };
        match marks[i].annot {
            Annotation::Force(x, y) => {
                let pl = label_of_text(e1[i].0);
                let ql = label_of_text(e1[j].0);
                let e2 = e1.update(i, (e1[i].0, Some(pl))).update(j, (e1[j].0, Some(ql)));
                (e2, c1, f1.push(((pl, ql), (x@, y@))))
            },
            Annotation::Constraint(cx, cy) => {
                let pl = label_of_text(e1[i].0);
                let ql = label_of_text(e1[j].0);
                let e2 = e1.update(i, (e1[i].0, Some(pl))).update(j, (e1[j].0, Some(ql)));
                (e2, c1.push(((pl, ql), (cx, cy))), f1)
            },
            Annotation::Empty => (e1, c1, f1),
        }
    }
}

/// What adding a marked boundary yields: its labelled polygon, and the
/// constraint and force lists grown by its annotations.
pub open spec fn add_result(
    cs: Seq<((Seq<char>, Seq<char>), (bool, bool))>,
    fs: Seq<((Seq<char>, Seq<char>), (Seq<char>, Seq<char>))>,
    edges: Seq<EdgeHandle>,
    marks: Seq<Mark>,
) -> (
    Seq<(Seq<char>, Option<Seq<char>>)>,
    Seq<((Seq<char>, Seq<char>), (bool, bool))>,
    Seq<((Seq<char>, Seq<char>), (Seq<char>, Seq<char>))>,
) {
    apply_marks(init_entries(edges), cs, fs, marks, marks.len() as int)
}

/// Collects boundaries and annotations for one export.
pub struct Writer {
    points: Vec<Vec<(String, Option<String>)>>,
    constraints: Vec<((String, String), (bool, bool))>,
    forces: Vec<((String, String), (String, String))>,
}

impl Writer {
    /// The collected polygons: per boundary, its vertices' texts and
    /// labels.
    pub closed spec fn polys(self) -> Seq<Seq<(Seq<char>, Option<Seq<char>>)>> {
        self.points@.map_values(|p: Vec<(String, Option<String>)>| entries_view(p@))
    }

    /// The collected constraints: labelled vertex pairs and their axes.
    pub closed spec fn cons(self) -> Seq<((Seq<char>, Seq<char>), (bool, bool))> {
        self.constraints@.map_values(
            |c: ((String, String), (bool, bool))| ((c.0.0@, c.0.1@), c.1),
        )
    }

    /// The collected forces: labelled vertex pairs and their component
    /// texts.
    pub closed spec fn fors(self) -> Seq<((Seq<char>, Seq<char>), (Seq<char>, Seq<char>))> {
        self.forces@.map_values(
            |f: ((String, String), (String, String))| ((f.0.0@, f.0.1@), (f.1.0@, f.1.1@)),
        )
    }

    /// An empty writer: nothing collected yet.
    pub fn new() -> (w: Writer)
        ensures
            w.polys() == Seq::<Seq<(Seq<char>, Option<Seq<char>>)>>::empty(),
            w.cons() == Seq::<((Seq<char>, Seq<char>), (bool, bool))>::empty(),
            w.fors() == Seq::<((Seq<char>, Seq<char>), (Seq<char>, Seq<char>))>::empty(),
    {
        let w = Writer { points: Vec::new(), constraints: Vec::new(), forces: Vec::new() };
        proof {
            assert(w.polys() =~= Seq::<Seq<(Seq<char>, Option<Seq<char>>)>>::empty());
            assert(w.cons() =~= Seq::<((Seq<char>, Seq<char>), (bool, bool))>::empty());
            assert(w.fors() =~= Seq::<((Seq<char>, Seq<char>), (Seq<char>, Seq<char>))>::empty());
        }
        w
    }

    /// Collects one marked boundary: formats its vertices, labels the
    /// vertices of annotated edges, and records each constraint and
    /// force under its vertex labels.
    #[verifier::loop_isolation(false)]
    #[verifier::rlimit(60)]
    pub fn add_boundary(&mut self, marked_bound: MarkedBound)
        requires
            marked_bound.marks@.len() == marked_bound.bound.edges@.len(),
        ensures
            final(self).polys() == old(self).polys().push(
                add_result(
                    old(self).cons(),
                    old(self).fors(),
                    marked_bound.bound.edges@,
                    marked_bound.marks@,
                ).0,
            ),
            final(self).cons() == add_result(
                old(self).cons(),
                old(self).fors(),
                marked_bound.bound.edges@,
                marked_bound.marks@,
            ).1,
            final(self).fors() == add_result(
                old(self).cons(),
                old(self).fors(),
                marked_bound.bound.edges@,
                marked_bound.marks@,
            ).2,
    {
        let ghost edges0 = marked_bound.bound.edges@;
        let ghost marks0 = marked_bound.marks@;
        let ghost cs0 = self.cons();
        let ghost fs0 = self.fors();
        let ghost points0 = self.points@;
        let (bound, marks) = marked_bound.into_parts();
        let pts = bound.points();
        let n: usize = pts.len();
        let mut entries: Vec<(String, Option<String>)> = Vec::new();
        let mut i: usize = 0;
        while i < n
            invariant
                0 <= i <= n,
                entries@.len() == i,
                forall|k: int|
                    0 <= k < i ==> (#[trigger] entries@[k]).0@ == geom::point_text_of(
                        edges0[k].geom.spec_start(),
                    ) && entries@[k].1 is None && text_bytes_ok(entries@[k].0),
            decreases n - i,
        {
            entries.push((geom::point_text(&pts[i]), None));
            i = i + 1;
        }
        proof {
            assert(entries_view(entries@) =~= init_entries(edges0));
        }
        let mut k: usize = 0;
        while k < n
            invariant
                0 <= k <= n,
                entries@.len() == n,
                marks@ == marks0,
                self.points@ == points0,
                forall|t: int|
                    0 <= t < n ==> (#[trigger] entries@[t]).0@ == init_entries(edges0)[t].0
                        && text_bytes_ok(entries@[t].0),
                (entries_view(entries@), self.cons(), self.fors()) == apply_marks(
                    init_entries(edges0),
                    cs0,
                    fs0,
                    marks0,
                    k as int,
                ),
            decreases n - k,
        {
            let ghost entries_pre = entries_view(entries@);
            let ghost cs_pre = self.cons();
            let ghost fs_pre = self.fors();
            let is_f = marks[k].is_force();
            let is_c = marks[k].is_constraint();
            if is_f || is_c {
                let k2: usize = if k + 1 == n {
                    0
                } else {
                    k + 1
                };
                let sp = entries[k].0.as_str();
                let pl = point_label(sp);
                let sq = entries[k2].0.as_str();
                let ql = point_label(sq);
                proof {
                    vstd::string::is_ascii_spec_bytes(sp);
                    vstd::string::is_ascii_spec_bytes(sq);
                    assert(pl@ == label_of_text(entries_pre[k as int].0)) by {
                        assert(sp.spec_bytes() =~= char_bytes(sp@));
                        assert(entries_pre[k as int].0 == sp@);
                    }
                    assert(ql@ == label_of_text(entries_pre[k2 as int].0)) by {
                        assert(sq.spec_bytes() =~= char_bytes(sq@));
                        assert(entries_pre[k2 as int].0 == sq@);
                    }
                }
                let ep = entries.remove(k);
                entries.insert(k, (ep.0, Some(pl.clone())));
                proof {
                    assert(entries_view(entries@) =~= entries_pre.update(
                        k as int,
                        (entries_pre[k as int].0, Some(pl@)),
                    ));
                }
                let ghost entries_mid = entries_view(entries@);
                let eq = entries.remove(k2);
                entries.insert(k2, (eq.0, Some(ql.clone())));
                proof {
                    assert(entries_view(entries@) =~= entries_mid.update(
                        k2 as int,
                        (entries_mid[k2 as int].0, Some(ql@)),
                    ));
                    assert(entries_mid[k2 as int].0 == entries_pre[k2 as int].0);
                }
                if is_f {
                    let (fx, fy) = match &marks[k].annot {
                        Annotation::Force(x, y) => (x.clone(), y.clone()),
                        _ => (String::new(), String::new()),
                    };
                    self.forces.push(((pl, ql), (fx, fy)));
                    proof {
                        assert(self.fors() =~= fs_pre.push(((pl@, ql@), (fx@, fy@))));
                        assert(self.cons() =~= cs_pre);
                    }
                } else {
                    let cv = match &marks[k].annot {
                        Annotation::Constraint(a, b) => (*a, *b),
                        _ => (false, false),
                    };
                    self.constraints.push(((pl, ql), cv));
                    proof {
                        assert(self.cons() =~= cs_pre.push(((pl@, ql@), cv)));
                        assert(self.fors() =~= fs_pre);
                    }
                }
            }
            proof {
                assert((entries_view(entries@), self.cons(), self.fors()) == apply_marks(
                    init_entries(edges0),
                    cs0,
                    fs0,
                    marks0,
                    k + 1,
                ));
            }
            k = k + 1;
        }
        let ghost final_entries = entries_view(entries@);
        self.points.push(entries);
        proof {
            assert(self.polys() =~= points0.map_values(
                |p: Vec<(String, Option<String>)>| entries_view(p@),
            ).push(final_entries));
        }
    }

    /// Renders everything collected as the export text: one `polygon`
    /// block per boundary, the thickness and material footer, then one
    /// line per constraint and per force, without a trailing newline.
    #[verifier::loop_isolation(false)]
    #[verifier::rlimit(60)]
    pub fn write(&self, material: &str, thickness: &str) -> (r: String)
        ensures
            r@ == render_spec(self.polys(), self.cons(), self.fors(), material@, thickness@),
    {
        proof {
            reveal_strlit("polygon\n");
            reveal_strlit("end\n");
            reveal_strlit("thickness ");
            reveal_strlit("material ");
            reveal_strlit("distributed_constraint ");
            reveal_strlit("distributed_force ");
            reveal_strlit(" ");
            reveal_strlit("\n");
        }
        let mut out = String::new();
        let np: usize = self.points.len();
        let mut i: usize = 0;
        while i < np
            invariant
                0 <= i <= np,
                out@ == polys_block(self.polys(), i as int),
            decreases np - i,
        {
            out.append("polygon\n");
            let poly = &self.points[i];
            let ne: usize = poly.len();
            let mut j: usize = 0;
            while j < ne
                invariant
                    0 <= j <= ne,
                    ne == poly@.len(),
                    poly == &self.points@[i as int],
                    out@ == polys_block(self.polys(), i as int) + "polygon\n"@ + poly_lines(
                        self.polys()[i as int],
                        j as int,
                    ),
                decreases ne - j,
            {
                let e = &poly[j];
                out.append(e.0.as_str());
                match &e.1 {
                    Some(l) => {
                        out.append(" ");
                        out.append(l.as_str());
                    },
                    None => {},
                }
                out.append("\n");
                proof {
                    assert(self.polys()[i as int][j as int] == entry_view(poly@[j as int]));
                    assert(out@ =~= polys_block(self.polys(), i as int) + "polygon\n"@
                        + poly_lines(self.polys()[i as int], j + 1));
                }
                j = j + 1;
            }
            out.append("end\n");
            proof {
                assert(out@ =~= polys_block(self.polys(), i + 1));
            }
            i = i + 1;
        }
        out.append("thickness ");
        out.append(thickness);
        out.append("\n");
        out.append("material ");
        out.append(material);
        out.append("\n");
        let ghost header = polys_block(self.polys(), np as int) + "thickness "@ + thickness@
            + seq!['\n'] + "material "@ + material@ + seq!['\n'];
        proof {
            assert(out@ =~= header);
        }
        let nc: usize = self.constraints.len();
        let mut ci: usize = 0;
        while ci < nc
            invariant
                0 <= ci <= nc,
                out@ == header + cons_block(self.cons(), ci as int),
            decreases nc - ci,
        {
            let c = &self.constraints[ci];
            out.append("distributed_constraint ");
            out.append(c.0.0.as_str());
            out.append(" ");
            out.append(c.0.1.as_str());
            out.append(" ");
            let axes = format_constraint(c.1);
            out.append(axes.as_str());
            out.append("\n");
            proof {
                assert(self.cons()[ci as int] == (((c.0.0)@, (c.0.1)@), c.1));
                assert(out@ =~= header + cons_block(self.cons(), ci + 1));
            }
            ci = ci + 1;
        }
        let nf: usize = self.forces.len();
        let mut fi: usize = 0;
        while fi < nf
            invariant
                0 <= fi <= nf,
                out@ == header + cons_block(self.cons(), nc as int) + force_block(
                    self.fors(),
                    fi as int,
                ),
            decreases nf - fi,
        {
            let f = &self.forces[fi];
            out.append("distributed_force ");
            out.append(f.0.0.as_str());
            out.append(" ");
            out.append(f.0.1.as_str());
            out.append(" ");
            out.append(f.1.0.as_str());
            out.append(" ");
            out.append(f.1.1.as_str());
            out.append("\n");
            proof {
                assert(self.fors()[fi as int] == (((f.0.0)@, (f.0.1)@), ((f.1.0)@, (f.1.1)@)));
                assert(out@ =~= header + cons_block(self.cons(), nc as int) + force_block(
                    self.fors(),
                    fi + 1,
                ));
            }
            fi = fi + 1;
        }
        proof {
            assert(out@.len() > 0) by {
                assert(out@[out@.len() - 1] == '\n');
            }
        }
        drop_last_char(&mut out);
        out
    }
}

/// One polygon vertex's output line: its coordinate text, its label if it
/// has one, and a line break.
pub open spec fn entry_line(e: (Seq<char>, Option<Seq<char>>)) -> Seq<char> {
    e.0 + (match e.1 {
        Some(l) => seq![' '] + l,
        None => Seq::<char>::empty(),
    }) + seq!['\n']
}

/// The output lines of a polygon's first `k` vertices.
pub open spec fn poly_lines(p: Seq<(Seq<char>, Option<Seq<char>>)>, k: int) -> Seq<char>
    decreases k,
{
    if k <= 0 {
        Seq::empty()
    } else {
        poly_lines(p, k - 1) + entry_line(p[k - 1])
    }
}

/// One polygon's output block.
pub open spec fn poly_block(p: Seq<(Seq<char>, Option<Seq<char>>)>) -> Seq<char> {
    "polygon\n"@ + poly_lines(p, p.len() as int) + "end\n"@
}

/// The output blocks of the first `k` polygons.
pub open spec fn polys_block(ps: Seq<Seq<(Seq<char>, Option<Seq<char>>)>>, k: int) -> Seq<char>
    decreases k,
{
    if k <= 0 {
        Seq::empty()
    } else {
        polys_block(ps, k - 1) + poly_block(ps[k - 1])
    }
}

/// One constraint's output line.
pub open spec fn cons_line(c: ((Seq<char>, Seq<char>), (bool, bool))) -> Seq<char> {
    "distributed_constraint "@ + c.0.0 + seq![' '] + c.0.1 + seq![' '] + spec_format_constraint(c.1)
        + seq!['\n']
}

/// The output lines of the first `k` constraints.
pub open spec fn cons_block(cs: Seq<((Seq<char>, Seq<char>), (bool, bool))>, k: int) -> Seq<char>
    decreases k,
{
    if k <= 0 {
        Seq::empty()
    } else {
        cons_block(cs, k - 1) + cons_line(cs[k - 1])
    }
}

/// One force's output line.
pub open spec fn force_line(f: ((Seq<char>, Seq<char>), (Seq<char>, Seq<char>))) -> Seq<char> {
    "distributed_force "@ + f.0.0 + seq![' '] + f.0.1 + seq![' '] + f.1.0 + seq![' '] + f.1.1
        + seq!['\n']
}

/// The output lines of the first `k` forces.
pub open spec fn force_block(
    fs: Seq<((Seq<char>, Seq<char>), (Seq<char>, Seq<char>))>,
    k: int,
) -> Seq<char>
    decreases k,
{
    if k <= 0 {
        Seq::empty()
    } else {
        force_block(fs, k - 1) + force_line(fs[k - 1])
    }
}

/// The whole export text: polygon blocks, the thickness and material
/// footer, constraint lines, force lines, and no trailing newline.
pub open spec fn render_spec(
    polys: Seq<Seq<(Seq<char>, Option<Seq<char>>)>>,
    cs: Seq<((Seq<char>, Seq<char>), (bool, bool))>,
    fs: Seq<((Seq<char>, Seq<char>), (Seq<char>, Seq<char>))>,
    material: Seq<char>,
    thickness: Seq<char>,
) -> Seq<char> {
    (polys_block(polys, polys.len() as int) + "thickness "@ + thickness + seq!['\n'] + "material "@
        + material + seq!['\n'] + cons_block(cs, cs.len() as int) + force_block(
        fs,
        fs.len() as int,
    )).drop_last()
}

} // verus!
