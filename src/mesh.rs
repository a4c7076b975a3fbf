//! The mesh text format: `v`, `vt`, `vn` and `f` records, one per line.
//!
//! Scanning checks every record and resolves nothing numeric: scalar fields are
//! kept as byte spans of the text (each one a well-formed decimal literal), and
//! face corners as the 1-based table indices they name, checked against the
//! records seen before the face.
use vstd::prelude::*;
use vstd::string::StringSliceAdditionalSpecFns;

verus! {

/// A byte range `start..end` of the mesh text.
#[derive(Clone, Copy, Debug, PartialEq, Eq, Structural)]
pub struct Span {
    pub start: usize,
    pub end: usize,
}

/// The bytes that a span covers.
pub open spec fn token(b: Seq<u8>, sp: Span) -> Seq<u8> {
    b.subrange(sp.start as int, sp.end as int)
}

/// Blanks (space, tab, vertical tab, form feed, carriage return) separate the
/// words of a line; `\n` (10) separates lines.
pub open spec fn is_blank(c: u8) -> bool {
    c == 32 || c == 9 || c == 11 || c == 12 || c == 13
}

pub open spec fn is_break(c: u8) -> bool {
    c == 10 || is_blank(c)
}

/// The lines of `s`, each given as the spans of its words, in order.
pub open spec fn lines(s: Seq<u8>) -> Seq<Seq<Span>>
    decreases s.len(),
{
    if s.len() == 0 {
        seq![Seq::empty()]
    } else {
        let i = s.len() - 1;
        let pre = lines(s.drop_last());
        let cur = pre.last();
        if s[i] == 10 {
            pre.push(Seq::empty())
        } else if is_blank(s[i]) {
            pre
        } else if i > 0 && !is_break(s[i - 1]) {
            pre.update(
                pre.len() - 1,
                cur.update(cur.len() - 1, Span { start: cur.last().start, end: (i + 1) as usize }),
            )
        } else {
            pre.update(pre.len() - 1, cur.push(Span { start: i as usize, end: (i + 1) as usize }))
        }
    }
}

/// Every span of `ls` is a non-empty word of `s`.
pub open spec fn spans_in(s: Seq<u8>, ls: Seq<Seq<Span>>) -> bool {
    forall|l: int, k: int|
        0 <= l < ls.len() && 0 <= k < ls[l].len() ==> #[trigger] ls[l][k].start < ls[l][k].end
            <= s.len()
}

pub proof fn lemma_lines(s: Seq<u8>)
    requires
        s.len() <= usize::MAX,
    ensures
        1 <= lines(s).len() <= s.len() + 1,
        s.len() > 0 && s.last() != 10 ==> lines(s).len() <= s.len(),
        lines(s).last().len() > 0 ==> s.len() > 0 && s.last() != 10,
        spans_in(s, lines(s)),
        s.len() > 0 && !is_break(s.last()) ==> lines(s).last().len() > 0
            && lines(s).last().last().end == s.len(),
    decreases s.len(),
{
    if s.len() > 0 {
        let pre = s.drop_last();
        lemma_lines(pre);
        let i = s.len() - 1;
        if i > 0 && !is_break(s[i - 1]) {
            assert(pre.last() == s[i - 1]);
        }
        let ls = lines(s);
        let pl = lines(pre);
        assert forall|l: int, k: int| 0 <= l < ls.len() && 0 <= k < ls[l].len() implies
            #[trigger] ls[l][k].start < ls[l][k].end <= s.len() by {
            if l < pl.len() - 1 || (l == pl.len() - 1 && k < pl[l].len()) {
                assert(pl[l][k].start < pl[l][k].end <= pre.len());
            }
        }
    }
}

pub open spec fn is_digit(c: u8) -> bool {
    48 <= c <= 57
}

/// The end of the run of digits that starts at `i`, looking no further than `end`.
pub open spec fn digits_end(b: Seq<u8>, i: int, end: int) -> int
    decreases end - i,
{
    if i < end && is_digit(b[i]) {
        digits_end(b, i + 1, end)
    } else {
        i
    }
}

/// Just past an optional `+` or `-` at `i`.
pub open spec fn sign_end(b: Seq<u8>, i: int, end: int) -> int {
    if i < end && (b[i] == 43 || b[i] == 45) {
        i + 1
    } else {
        i
    }
}

/// A decimal literal (`+` 43, `-` 45, `.` 46, `e` 101, `E` 69): an optional sign, digits with an optional fraction (at
/// least one digit in all), then an optional exponent `e` or `E` with an
/// optional sign and at least one digit.
pub open spec fn is_number(b: Seq<u8>, sp: Span) -> bool {
    let s = sp.start as int;
    let e = sp.end as int;
    let m0 = sign_end(b, s, e);
    let m1 = digits_end(b, m0, e);
    let dot = m1 < e && b[m1] == 46;
    let f1 = if dot {
        digits_end(b, m1 + 1, e)
    } else {
        m1
    };
    &&& m1 > m0 || f1 > m1 + 1
    &&& f1 == e || (b[f1] == 101 || b[f1] == 69) && {
        let x0 = sign_end(b, f1 + 1, e);
        let x1 = digits_end(b, x0, e);
        x1 > x0 && x1 == e
    }
}

/// The value of the decimal digits `b[s..e]`.
pub open spec fn digits_value(b: Seq<u8>, s: int, e: int) -> nat
    decreases e - s,
{
    if e <= s {
        0
    } else {
        digits_value(b, s, e - 1) * 10 + (b[e - 1] - 48) as nat
    }
}

proof fn lemma_digits_end(b: Seq<u8>, i: int, end: int)
    requires
        0 <= i <= end <= b.len(),
    ensures
        i <= digits_end(b, i, end) <= end,
        forall|k: int| i <= k < digits_end(b, i, end) ==> is_digit(#[trigger] b[k]),
        digits_end(b, i, end) < end ==> !is_digit(b[digits_end(b, i, end)]),
    decreases end - i,
{
    if i < end && is_digit(b[i]) {
        lemma_digits_end(b, i + 1, end);
    }
}

proof fn lemma_digits_value_grows(b: Seq<u8>, s: int, i: int, e: int)
    requires
        s <= i <= e,
    ensures
        digits_value(b, s, i) <= digits_value(b, s, e),
    decreases e - i,
{
    if i < e {
        lemma_digits_value_grows(b, s, i, e - 1);
    }
}

fn skip_digits(b: &[u8], i: usize, end: usize) -> (r: usize)
    requires
        i <= end <= b@.len(),
    ensures
        r == digits_end(b@, i as int, end as int),
{
    let mut j = i;
    while j < end && b[j] >= 48 && b[j] <= 57
        invariant
            i <= j <= end <= b@.len(),
            digits_end(b@, j as int, end as int) == digits_end(b@, i as int, end as int),
        decreases end - j,
    {
        j = j + 1;
    }
    j
}

fn skip_sign(b: &[u8], i: usize, end: usize) -> (r: usize)
    requires
        i <= end <= b@.len(),
    ensures
        r == sign_end(b@, i as int, end as int),
{
    if i < end && (b[i] == 43 || b[i] == 45) {
        i + 1
    } else {
        i
    }
}

/// Whether the word `sp` is a decimal literal.
pub fn check_number(b: &[u8], sp: Span) -> (r: bool)
    requires
        sp.start <= sp.end <= b@.len(),
    ensures
        r == is_number(b@, sp),
{
    let s = sp.start;
    let e = sp.end;
    let m0 = skip_sign(b, s, e);
    let m1 = skip_digits(b, m0, e);
    proof {
        lemma_digits_end(b@, m0 as int, e as int);
    }
    let dot = m1 < e && b[m1] == 46;
    let f1 = if dot {
        skip_digits(b, m1 + 1, e)
    } else {
        m1
    };
    proof {
        if dot {
            lemma_digits_end(b@, m1 + 1, e as int);
        }
    }
    if !(m1 > m0 || dot && f1 > m1 + 1) {
        return false;
    }
    if f1 == e {
        return true;
    }
    if b[f1] != 101 && b[f1] != 69 {
        return false;
    }
    let x0 = skip_sign(b, f1 + 1, e);
    let x1 = skip_digits(b, x0, e);
    proof {
        lemma_digits_end(b@, x0 as int, e as int);
    }
    x1 > x0 && x1 == e
}

/// The value of the digits `b[s..e]`, or `None` where it exceeds `usize::MAX`.
fn parse_index(b: &[u8], s: usize, e: usize) -> (r: Option<usize>)
    requires
        s <= e <= b@.len(),
        forall|k: int| s <= k < e ==> is_digit(#[trigger] b@[k]),
    ensures
        r == (if digits_value(b@, s as int, e as int) <= usize::MAX {
            Some(digits_value(b@, s as int, e as int) as usize)
        } else {
            None::<usize>
        }),
{
    let mut v: usize = 0;
    let mut i = s;
    while i < e
        invariant
            s <= i <= e <= b@.len(),
            forall|k: int| s <= k < e ==> is_digit(#[trigger] b@[k]),
            v == digits_value(b@, s as int, i as int),
        decreases e - i,
    {
        let d = (b[i] - 48) as usize;
        assert(is_digit(b@[i as int]));
        assert(digits_value(b@, s as int, i + 1) == v * 10 + d);
        if v > (usize::MAX - d) / 10 {
            proof {
                assert(v * 10 + d > usize::MAX) by (nonlinear_arith)
                    requires
                        v > (usize::MAX - d) / 10,
                        d <= 9,
                ;
                lemma_digits_value_grows(b@, s as int, i + 1, e as int);
            }
            return None;
        }
        assert(v * 10 + d <= usize::MAX) by (nonlinear_arith)
            requires
                v <= (usize::MAX - d) / 10,
                d <= 9,
        ;
        v = v * 10 + d;
        i = i + 1;
    }
    Some(v)
}

/// The scalar fields of a `v` or `vn` record.
#[derive(Clone, Copy, Debug, PartialEq, Eq, Structural)]
pub struct Vec3Tokens {
    pub x: Span,
    pub y: Span,
    pub z: Span,
}

/// The scalar fields of a `vt` record.
#[derive(Clone, Copy, Debug, PartialEq, Eq, Structural)]
pub struct Vec2Tokens {
    pub u: Span,
    pub v: Span,
}

/// One corner of a face: 1-based indices into the position, texture-coordinate
/// and normal tables.
#[derive(Clone, Copy, Debug, PartialEq, Eq, Structural)]
pub struct Corner {
    pub position: usize,
    pub uv: usize,
    pub normal: usize,
}

/// A triangle: three corners, in the order the record lists them.
#[derive(Clone, Copy, Debug, PartialEq, Eq, Structural)]
pub struct Face {
    pub a: Corner,
    pub b: Corner,
    pub c: Corner,
}

impl Face {
    pub open spec fn corner(self, j: int) -> Corner {
        if j == 0 {
            self.a
        } else if j == 1 {
            self.b
        } else {
            self.c
        }
    }
}

/// Why a mesh text was refused: the 1-based number of the offending line.
#[derive(Clone, Copy, Debug, PartialEq, Eq, Structural)]
pub enum MeshError {
    MalformedMesh { line: usize },
}

/// The records of a mesh text, in the order they appear.
pub struct MeshLayout {
    pub positions: Vec<Vec3Tokens>,
    pub uvs: Vec<Vec2Tokens>,
    pub normals: Vec<Vec3Tokens>,
    pub faces: Vec<Face>,
}

pub struct LayoutModel {
    pub positions: Seq<Vec3Tokens>,
    pub uvs: Seq<Vec2Tokens>,
    pub normals: Seq<Vec3Tokens>,
    pub faces: Seq<Face>,
}

impl View for MeshLayout {
    type V = LayoutModel;

    open spec fn view(&self) -> LayoutModel {
        LayoutModel {
            positions: self.positions@,
            uvs: self.uvs@,
            normals: self.normals@,
            faces: self.faces@,
        }
    }
}

pub open spec fn empty_layout() -> LayoutModel {
    LayoutModel {
        positions: Seq::empty(),
        uvs: Seq::empty(),
        normals: Seq::empty(),
        faces: Seq::empty(),
    }
}

#[derive(Clone, Copy, Debug, PartialEq, Eq, Structural)]
pub enum RecordKind {
    Position,
    TexCoord,
    Normal,
    Face,
    Other,
}

/// What a line's first word makes of it.
pub open spec fn record_kind(t: Seq<u8>) -> RecordKind {
    if t == seq![118u8] {
        RecordKind::Position
    } else if t == seq![118u8, 116u8] {
        RecordKind::TexCoord
    } else if t == seq![118u8, 110u8] {
        RecordKind::Normal
    } else if t == seq![102u8] {
        RecordKind::Face
    } else {
        RecordKind::Other
    }
}

/// The three indices of a corner word `p/u/n` (`/` is 47): each a non-empty run
/// of digits.
pub open spec fn corner_of(b: Seq<u8>, sp: Span) -> Option<(nat, nat, nat)> {
    let s = sp.start as int;
    let e = sp.end as int;
    let d1 = digits_end(b, s, e);
    let d2 = digits_end(b, d1 + 1, e);
    let d3 = digits_end(b, d2 + 1, e);
    if d1 > s && d1 < e && b[d1] == 47 && d2 > d1 + 1 && d2 < e && b[d2] == 47 && d3 > d2 + 1
        && d3 == e {
        Some((digits_value(b, s, d1), digits_value(b, d1 + 1, d2), digits_value(b, d2 + 1, d3)))
    } else {
        None
    }
}

/// The corner a word names, where each index falls within the records seen so far.
pub open spec fn corner_in(b: Seq<u8>, sp: Span, st: LayoutModel) -> Option<Corner> {
    match corner_of(b, sp) {
        Some((p, u, n)) => if 1 <= p <= st.positions.len() && 1 <= u <= st.uvs.len() && 1 <= n
            <= st.normals.len() && p <= usize::MAX && u <= usize::MAX && n <= usize::MAX {
            Some(Corner { position: p as usize, uv: u as usize, normal: n as usize })
        } else {
            None
        },
        None => None,
    }
}

/// The effect of one line (its words `ws`, its number `line`) on the records so far.
pub open spec fn scan_line(b: Seq<u8>, st: LayoutModel, ws: Seq<Span>, line: nat) -> Result<
    LayoutModel,
    MeshError,
> {
    let bad = Err(MeshError::MalformedMesh { line: line as usize });
    if ws.len() == 0 {
        Ok(st)
    } else {
        match record_kind(token(b, ws[0])) {
            RecordKind::Position => if ws.len() >= 4 && is_number(b, ws[1]) && is_number(b, ws[2])
                && is_number(b, ws[3]) {
                Ok(
                    LayoutModel {
                        positions: st.positions.push(Vec3Tokens { x: ws[1], y: ws[2], z: ws[3] }),
                        ..st
                    },
                )
            } else {
                bad
            },
            RecordKind::TexCoord => if ws.len() >= 3 && is_number(b, ws[1]) && is_number(
                b,
                ws[2],
            ) {
                Ok(LayoutModel { uvs: st.uvs.push(Vec2Tokens { u: ws[1], v: ws[2] }), ..st })
            } else {
                bad
            },
            RecordKind::Normal => if ws.len() >= 4 && is_number(b, ws[1]) && is_number(b, ws[2])
                && is_number(b, ws[3]) {
                Ok(
                    LayoutModel {
                        normals: st.normals.push(Vec3Tokens { x: ws[1], y: ws[2], z: ws[3] }),
                        ..st
                    },
                )
            } else {
                bad
            },
            RecordKind::Face => if ws.len() == 4 && corner_in(b, ws[1], st) is Some && corner_in(
                b,
                ws[2],
                st,
            ) is Some && corner_in(b, ws[3], st) is Some {
                let f = Face {
                    a: corner_in(b, ws[1], st).unwrap(),
                    b: corner_in(b, ws[2], st).unwrap(),
                    c: corner_in(b, ws[3], st).unwrap(),
                };
                Ok(LayoutModel { faces: st.faces.push(f), ..st })
            } else {
                bad
            },
            RecordKind::Other => Ok(st),
        }
    }
}

/// The records of the lines `ls`, or the first line that is malformed.
pub open spec fn scan_lines(b: Seq<u8>, ls: Seq<Seq<Span>>) -> Result<LayoutModel, MeshError>
    decreases ls.len(),
{
    if ls.len() == 0 {
        Ok(empty_layout())
    } else {
        match scan_lines(b, ls.drop_last()) {
            Ok(st) => scan_line(b, st, ls.last(), ls.len()),
            Err(e) => Err(e),
        }
    }
}

/// The records of the mesh text `b`, or the first line that is malformed.
pub open spec fn scan(b: Seq<u8>) -> Result<LayoutModel, MeshError> {
    scan_lines(b, lines(b))
}

fn blank_byte(c: u8) -> (r: bool)
    ensures
        r == is_blank(c),
{
    c == 32 || c == 9 || c == 11 || c == 12 || c == 13
}

/// Reads the record tag: `v` is 118, `t` 116, `n` 110 and `f` 102 in ASCII.
fn kind_of(b: &[u8], sp: Span) -> (r: RecordKind)
    requires
        sp.start < sp.end <= b@.len(),
    ensures
        r == record_kind(token(b@, sp)),
{
    let s = sp.start;
    let n = sp.end - sp.start;
    let t = Ghost(token(b@, sp));
    assert(t@.len() == n);
    assert(t@[0] == b@[s as int]);
    if n == 1 {
        if b[s] == 118 {
            assert(t@ =~= seq![118u8]);
            return RecordKind::Position;
        } else if b[s] == 102 {
            assert(t@ =~= seq![102u8]);
            return RecordKind::Face;
        }
    } else if n == 2 {
        assert(t@[1] == b@[s + 1]);
        if b[s] == 118 && b[s + 1] == 116 {
            assert(t@ =~= seq![118u8, 116u8]);
            return RecordKind::TexCoord;
        } else if b[s] == 118 && b[s + 1] == 110 {
            assert(t@ =~= seq![118u8, 110u8]);
            return RecordKind::Normal;
        }
    }
    RecordKind::Other
}

fn resolve_corner(b: &[u8], sp: Span, st: &MeshLayout) -> (r: Option<Corner>)
    requires
        sp.start <= sp.end <= b@.len(),
    ensures
        r == corner_in(b@, sp, st@),
{
    let s = sp.start;
    let e = sp.end;
    let d1 = skip_digits(b, s, e);
    proof {
        lemma_digits_end(b@, s as int, e as int);
    }
    if !(d1 > s && d1 < e && b[d1] == 47) {
        return None;
    }
    let d2 = skip_digits(b, d1 + 1, e);
    proof {
        lemma_digits_end(b@, d1 + 1, e as int);
    }
    if !(d2 > d1 + 1 && d2 < e && b[d2] == 47) {
        return None;
    }
    let d3 = skip_digits(b, d2 + 1, e);
    proof {
        lemma_digits_end(b@, d2 + 1, e as int);
    }
    if !(d3 > d2 + 1 && d3 == e) {
        return None;
    }
    let np = st.positions.len();
    let nu = st.uvs.len();
    let nn = st.normals.len();
    let p = parse_index(b, s, d1);
    let u = parse_index(b, d1 + 1, d2);
    let n = parse_index(b, d2 + 1, d3);
    match (p, u, n) {
        (Some(p), Some(u), Some(n)) => {
            if 1 <= p && p <= np && 1 <= u && u <= nu && 1 <= n && n <= nn {
                Some(Corner { position: p, uv: u, normal: n })
            } else {
                None
            }
        },
        _ => None,
    }
}

/// Every span of `ws` is a non-empty range within `n` bytes.
pub open spec fn words_within(ws: Seq<Span>, n: int) -> bool {
    forall|k: int| 0 <= k < ws.len() ==> #[trigger] ws[k].start < ws[k].end <= n
}

/// Applies the line with words `ws` and number `line` to `st`.
fn apply_line(b: &[u8], st: &mut MeshLayout, ws: &Vec<Span>, line: usize) -> (r: Result<
    (),
    MeshError,
>)
    requires
        words_within(ws@, b@.len() as int),
    ensures
        match scan_line(b@, old(st)@, ws@, line as nat) {
            Ok(m) => r is Ok && final(st)@ == m,
            Err(e) => r == Err::<(), MeshError>(e),
        },
{
    let bad = Err(MeshError::MalformedMesh { line });
    if ws.len() == 0 {
        return Ok(());
    }
    let kind = kind_of(b, ws[0]);
    match kind {
        RecordKind::Position => {
            if ws.len() >= 4 && check_number(b, ws[1]) && check_number(b, ws[2]) && check_number(
                b,
                ws[3],
            ) {
                st.positions.push(Vec3Tokens { x: ws[1], y: ws[2], z: ws[3] });
                Ok(())
            } else {
                bad
            }
        },
        RecordKind::TexCoord => {
            if ws.len() >= 3 && check_number(b, ws[1]) && check_number(b, ws[2]) {
                st.uvs.push(Vec2Tokens { u: ws[1], v: ws[2] });
                Ok(())
            } else {
                bad
            }
        },
        RecordKind::Normal => {
            if ws.len() >= 4 && check_number(b, ws[1]) && check_number(b, ws[2]) && check_number(
                b,
                ws[3],
            ) {
                st.normals.push(Vec3Tokens { x: ws[1], y: ws[2], z: ws[3] });
                Ok(())
            } else {
                bad
            }
        },
        RecordKind::Face => {
            if ws.len() != 4 {
                return bad;
            }
            let ca = resolve_corner(b, ws[1], st);
            let cb = resolve_corner(b, ws[2], st);
            let cc = resolve_corner(b, ws[3], st);
            match (ca, cb, cc) {
                (Some(ca), Some(cb), Some(cc)) => {
                    st.faces.push(Face { a: ca, b: cb, c: cc });
                    Ok(())
                },
                _ => bad,
            }
        },
        RecordKind::Other => Ok(()),
    }
}

/// Line structure kept as the text grows: the complete lines of `a` stay, in
/// order, at the front of `c`.
pub open spec fn keeps_lines(a: Seq<Seq<Span>>, c: Seq<Seq<Span>>) -> bool {
    &&& 1 <= a.len() <= c.len()
    &&& forall|k: int| 0 <= k < a.len() - 1 ==> #[trigger] c[k] == a[k]
}

proof fn lemma_lines_grow(s: Seq<u8>, j: int, k: int)
    requires
        0 <= j <= k <= s.len() <= usize::MAX,
    ensures
        keeps_lines(lines(s.take(j)), lines(s.take(k))),
    decreases k - j,
{
    lemma_lines(s.take(j));
    if j < k {
        lemma_lines_grow(s, j, k - 1);
        let t = s.take(k);
        assert(t.drop_last() =~= s.take(k - 1));
        lemma_lines(s.take(k - 1));
        lemma_lines(t);
        let a = lines(s.take(j));
        let m = lines(s.take(k - 1));
        let c = lines(t);
        assert forall|q: int| 0 <= q < a.len() - 1 implies #[trigger] c[q] == a[q] by {
            assert(m[q] == a[q]);
        }
    }
}

proof fn lemma_scan_err_prefix(b: Seq<u8>, ls: Seq<Seq<Span>>, m: int, e: MeshError)
    requires
        0 <= m <= ls.len(),
        scan_lines(b, ls.take(m)) == Err::<LayoutModel, MeshError>(e),
    ensures
        scan_lines(b, ls) == Err::<LayoutModel, MeshError>(e),
    decreases ls.len() - m,
{
    if m < ls.len() {
        let t = ls.take(m + 1);
        assert(t.drop_last() =~= ls.take(m));
        lemma_scan_err_prefix(b, ls, m + 1, e);
    } else {
        assert(ls.take(m) =~= ls);
    }
}

/// How the line structure changes when the text grows by the byte at `i`.
proof fn lemma_line_step(bs: Seq<u8>, i: int)
    requires
        0 <= i < bs.len() <= usize::MAX,
    ensures
        ({
            let pre = lines(bs.take(i));
            let nxt = lines(bs.take(i + 1));
            let ws = pre.last();
            let c = bs[i];
            &&& pre.len() >= 1
            &&& c == 10 ==> nxt == pre.push(Seq::empty()) && nxt.drop_last() == pre
            &&& is_blank(c) ==> nxt == pre
            &&& !is_break(c) ==> nxt.len() == pre.len() && nxt.drop_last() == pre.drop_last()
            &&& !is_break(c) && i > 0 && !is_break(bs[i - 1]) ==> ws.len() > 0 && nxt.last()
                == ws.update(ws.len() - 1, Span { start: ws.last().start, end: (i + 1) as usize })
            &&& !is_break(c) && !(i > 0 && !is_break(bs[i - 1])) ==> nxt.last() == ws.push(
                Span { start: i as usize, end: (i + 1) as usize },
            )
        }),
{
    let t = bs.take(i + 1);
    assert(t.drop_last() =~= bs.take(i));
    lemma_lines(bs.take(i));
    let pre = lines(bs.take(i));
    if bs[i] == 10 {
        assert(pre.push(Seq::empty()).drop_last() =~= pre);
    }
    if !is_break(bs[i]) {
        if i > 0 && !is_break(bs[i - 1]) {
            assert(bs.take(i).last() == bs[i - 1]);
        }
        assert(lines(t).drop_last() =~= pre.drop_last());
    }
}

/// The words of the last line of `p`, a prefix of `bs`, lie within `bs`.
proof fn lemma_last_line_in(bs: Seq<u8>, p: Seq<u8>)
    requires
        p.len() <= bs.len() <= usize::MAX,
    ensures
        forall|k: int|
            0 <= k < lines(p).last().len() ==> #[trigger] lines(p).last()[k].start < lines(
                p,
            ).last()[k].end <= bs.len(),
{
    lemma_lines(p);
    let ls = lines(p);
    assert forall|k: int| 0 <= k < ls.last().len() implies #[trigger] ls.last()[k].start
        < ls.last()[k].end <= bs.len() by {
        assert(ls[ls.len() - 1][k] == ls.last()[k]);
    }
}

/// Scans a mesh text into its records.
///
/// Lines are separated by `\n` and words by blanks (space, tab, `\r`, vertical
/// tab, form feed). A line is dispatched on its first word: `v` and `vn` take
/// three decimal fields, `vt` two (further words are not read), `f` exactly
/// three corners `p/u/n` whose 1-based indices fall within the records before
/// it; blank lines and other first words are skipped. Any other shape is
/// refused with the number of the first malformed line.
pub fn scan_mesh(text: &str) -> (r: Result<MeshLayout, MeshError>)
    ensures
        match scan(text.spec_bytes()) {
            Ok(m) => r is Ok && r.unwrap()@ == m,
            Err(e) => r == Err::<MeshLayout, MeshError>(e),
        },
        r is Ok ==> layout_wf(r.unwrap()@),
{
    proof {
        lemma_scan_wf(text.spec_bytes());
    }
    let b = text.as_bytes();
    let ghost bs = b@;
    let mut st = MeshLayout {
        positions: Vec::new(),
        uvs: Vec::new(),
        normals: Vec::new(),
        faces: Vec::new(),
    };
    let mut ws: Vec<Span> = Vec::new();
    let mut done: usize = 0;
    let mut i: usize = 0;
    assert(bs.take(0) =~= Seq::<u8>::empty());
    assert(scan_lines(bs, lines(bs.take(0)).drop_last()) == Ok::<LayoutModel, MeshError>(
        empty_layout(),
    ));
    while i < b.len()
        invariant
            bs == b@,
            bs == text.spec_bytes(),
            i <= bs.len(),
            lines(bs.take(i as int)).len() == done + 1,
            lines(bs.take(i as int)).last() == ws@,
            scan_lines(bs, lines(bs.take(i as int)).drop_last()) == Ok::<LayoutModel, MeshError>(
                st@,
            ),
            spans_in(bs.take(i as int), lines(bs.take(i as int))),
        decreases bs.len() - i,
    {
        let ghost pre = bs.take(i as int);
        let ghost nxt = bs.take(i + 1);
        proof {
            lemma_line_step(bs, i as int);
            lemma_lines(nxt);
        }
        let c = b[i];
        if c == 10 {
            let ghost st0 = st@;
            proof {
                lemma_last_line_in(bs, pre);
                assert(words_within(ws@, b@.len() as int)) by {
                    assert forall|k: int| 0 <= k < ws@.len() implies #[trigger] ws@[k].start
                        < ws@[k].end <= b@.len() by {
                        assert(lines(pre).last()[k] == ws@[k]);
                    }
                }
                lemma_lines(pre);
                assert(scan_lines(bs, lines(pre)) == scan_line(bs, st0, ws@, (done + 1) as nat));
            }
            let res = apply_line(b, &mut st, &ws, done + 1);
            match res {
                Err(e) => {
                    proof {
                        lemma_lines_grow(bs, i + 1, bs.len() as int);
                        assert(bs.take(bs.len() as int) =~= bs);
                        let all = lines(bs);
                        let m = lines(pre).len() as int;
                        assert(keeps_lines(lines(nxt), all));
                        assert(lines(nxt).len() == m + 1);
                        assert forall|k: int| 0 <= k < m implies #[trigger] all[k] == lines(pre)[k] by {
                            assert(all[k] == lines(nxt)[k]);
                        }
                        assert(all.take(m) =~= lines(pre));
                        assert(scan_lines(bs, lines(pre)) == Err::<LayoutModel, MeshError>(e));
                        lemma_scan_err_prefix(bs, all, m, e);
                    }
                    return Err(e);
                },
                Ok(()) => {},
            }
            ws = Vec::new();
            done = done + 1;
            proof {
                assert(lines(nxt).last() =~= ws@);
            }
        } else if blank_byte(c) {
            // a blank only ends the word before it
        } else if i > 0 && !(b[i - 1] == 10 || blank_byte(b[i - 1])) {
            // the word goes on
            let k = ws.len() - 1;
            let first = ws[k].start;
            ws.set(k, Span { start: first, end: i + 1 });
            proof {
                assert(lines(nxt).last() =~= ws@);
            }
        } else {
            // a new word starts
            ws.push(Span { start: i, end: i + 1 });
            proof {
                assert(lines(nxt).last() =~= ws@);
            }
        }
        i = i + 1;
    }
    proof {
        assert(bs.take(i as int) =~= bs);
        lemma_last_line_in(bs, bs);
        assert(words_within(ws@, b@.len() as int)) by {
            assert forall|k: int| 0 <= k < ws@.len() implies #[trigger] ws@[k].start < ws@[k].end
                <= b@.len() by {
                assert(lines(bs).last()[k] == ws@[k]);
            }
        }
        let ls = lines(bs);
        lemma_lines(bs);
        assert(lines(bs.take(i as int)) == ls);
        assert(scan_lines(bs, ls.drop_last()) == Ok::<LayoutModel, MeshError>(st@));
        assert(scan_lines(bs, ls) == scan_line(bs, st@, ls.last(), ls.len()));
    }
    if ws.len() == 0 {
        return Ok(st);
    }
    match apply_line(b, &mut st, &ws, done + 1) {
        Ok(()) => Ok(st),
        Err(e) => Err(e),
    }
}

/// Every corner of every face names records that exist.
pub open spec fn layout_wf(m: LayoutModel) -> bool {
    forall|f: int, j: int|
        0 <= f < m.faces.len() && 0 <= j < 3 ==> {
            let c = #[trigger] m.faces[f].corner(j);
            1 <= c.position <= m.positions.len() && 1 <= c.uv <= m.uvs.len() && 1 <= c.normal
                <= m.normals.len()
        }
}

proof fn lemma_scan_lines_wf(b: Seq<u8>, ls: Seq<Seq<Span>>)
    ensures
        scan_lines(b, ls) matches Ok(m) ==> layout_wf(m),
    decreases ls.len(),
{
    if ls.len() > 0 {
        lemma_scan_lines_wf(b, ls.drop_last());
        if let Ok(st) = scan_lines(b, ls.drop_last()) {
            if let Ok(m) = scan_line(b, st, ls.last(), ls.len()) {
                assert forall|f: int, j: int| 0 <= f < m.faces.len() && 0 <= j < 3 implies {
                    let c = #[trigger] m.faces[f].corner(j);
                    1 <= c.position <= m.positions.len() && 1 <= c.uv <= m.uvs.len() && 1
                        <= c.normal <= m.normals.len()
                } by {
                    if f < st.faces.len() {
                        assert(m.faces[f] == st.faces[f]);
                        assert(st.faces[f].corner(j) == st.faces[f].corner(j));
                    }
                }
            }
        }
    }
}

/// What scanning accepts is well formed.
pub proof fn lemma_scan_wf(b: Seq<u8>)
    ensures
        scan(b) matches Ok(m) ==> layout_wf(m),
{
    lemma_scan_lines_wf(b, lines(b));
}

} // verus!
