//! Accumulates move / line / cubic-curve / close drawing commands into a
//! compact path-description string.
//!
//! Each command is one letter (`M`, `L`, `C`, `Z`) followed by
//! comma-separated coordinates rounded to milli-units; the points of a cubic
//! command are separated by single spaces; consecutive commands are
//! concatenated with no separator.

use vstd::prelude::*;

verus! {

use crate::decimal::{fmt_millis, append_millis, is_num_char, lemma_fmt_millis_chars};
use crate::num::{millis_of, millis_i64};
use crate::geom::Point;

/// The text of one coordinate pair: both components rounded to milli-units,
/// separated by a comma.
pub open spec fn coord_pair(x: int, y: int) -> Seq<char> {
    fmt_millis(millis_of(x)) + seq![','] + fmt_millis(millis_of(y))
}

/// The text of a move command.
pub open spec fn move_str(x: int, y: int) -> Seq<char> {
    seq!['M'] + coord_pair(x, y)
}

/// The text of a straight-line command.
pub open spec fn line_str(x: int, y: int) -> Seq<char> {
    seq!['L'] + coord_pair(x, y)
}

/// The text of a cubic-curve command: two control points, then the endpoint.
pub open spec fn cubic_str(x1: int, y1: int, x2: int, y2: int, x: int, y: int) -> Seq<char> {
    seq!['C'] + coord_pair(x1, y1) + seq![' '] + coord_pair(x2, y2) + seq![' '] + coord_pair(x, y)
}

/// Characters that may occur in a path string.
pub open spec fn is_path_char(c: char) -> bool {
    is_num_char(c) || c == ',' || c == ' ' || c == 'M' || c == 'L' || c == 'C' || c == 'Z'
}

/// Whether a point is within the builder's coordinate bound.
pub open spec fn coord_in_range(p: Point) -> bool {
    -1_000_000_000_000_000 <= p.x <= 1_000_000_000_000_000
        && -1_000_000_000_000_000 <= p.y <= 1_000_000_000_000_000
}

/// A stateful accumulator of path commands; its view is the path text
/// produced so far.
pub struct PathBuilder {
    buf: String,
}

impl View for PathBuilder {
    type V = Seq<char>;

    closed spec fn view(&self) -> Seq<char> {
        self.buf@
    }
}

impl PathBuilder {
    /// An empty builder.
    pub fn new() -> (b: PathBuilder)
        ensures
            b@ == Seq::<char>::empty(),
    {
        PathBuilder { buf: String::new() }
    }

    /// Appends a move command for `p`.
    pub fn move_to(&mut self, p: Point)
        requires
            coord_in_range(p),
        ensures
            final(self)@ == old(self)@ + move_str(p.x as int, p.y as int),
    {
        self.buf.append("M");
        proof {
            reveal_strlit("M");
            assert("M"@ =~= seq!['M']);
        }
        self.append_pair(p);
        proof {
            assert(self@ =~= old(self)@ + move_str(p.x as int, p.y as int));
        }
    }

    /// Appends a straight-line command to `p`.
    pub fn line_to(&mut self, p: Point)
        requires
            coord_in_range(p),
        ensures
            final(self)@ == old(self)@ + line_str(p.x as int, p.y as int),
    {
        self.buf.append("L");
        proof {
            reveal_strlit("L");
            assert("L"@ =~= seq!['L']);
        }
        self.append_pair(p);
        proof {
            assert(self@ =~= old(self)@ + line_str(p.x as int, p.y as int));
        }
    }

    /// Appends a cubic-curve command with control points `p1`, `p2` and
    /// endpoint `p`.
    pub fn cubic_to(&mut self, p1: Point, p2: Point, p: Point)
        requires
            coord_in_range(p1),
            coord_in_range(p2),
            coord_in_range(p),
        ensures
            final(self)@ == old(self)@ + cubic_str(
                p1.x as int,
                p1.y as int,
                p2.x as int,
                p2.y as int,
                p.x as int,
                p.y as int,
            ),
    {
        self.buf.append("C");
        proof {
            reveal_strlit("C");
            assert("C"@ =~= seq!['C']);
        }
        self.append_pair(p1);
        self.buf.append(" ");
        proof {
            reveal_strlit(" ");
            assert(" "@ =~= seq![' ']);
        }
        self.append_pair(p2);
        self.buf.append(" ");
        self.append_pair(p);
        proof {
            assert(self@ =~= old(self)@ + cubic_str(
                p1.x as int,
                p1.y as int,
                p2.x as int,
                p2.y as int,
                p.x as int,
                p.y as int,
            ));
        }
    }

    /// Appends the close marker; with no prior command this is a content
    /// no-op.
    pub fn close(&mut self)
        ensures
            old(self)@.len() == 0 ==> final(self)@ == old(self)@,
            old(self)@.len() > 0 ==> final(self)@ == old(self)@ + seq!['Z'],
    {
        if !self.buf.as_str().is_empty() {
            self.buf.append("Z");
            proof {
                reveal_strlit("Z");
                assert(self@ =~= old(self)@ + seq!['Z']);
            }
        }
    }

    /// The complete path string accumulated so far.
    pub fn finish(self) -> (s: String)
        ensures
            s@ == self@,
    {
        self.buf
    }

    fn append_pair(&mut self, p: Point)
        requires
            coord_in_range(p),
        ensures
            final(self)@ == old(self)@ + coord_pair(p.x as int, p.y as int),
    {
        let mx = millis_i64(p.x);
        append_millis(&mut self.buf, mx);
        self.buf.append(",");
        proof {
            reveal_strlit(",");
            assert(","@ =~= seq![',']);
        }
        let my = millis_i64(p.y);
        append_millis(&mut self.buf, my);
        proof {
            assert(self@ =~= old(self)@ + coord_pair(p.x as int, p.y as int));
        }
    }
}

/// Whether every character of `s` is a path character.
pub open spec fn all_path_chars(s: Seq<char>) -> bool {
    forall|i: int| 0 <= i < s.len() ==> is_path_char(#[trigger] s[i])
}

/// A well-formed path string: it starts with a move, ends with the close
/// marker, and contains only command letters, digits, signs, points,
/// commas and spaces.
pub open spec fn path_grammar_ok(s: Seq<char>) -> bool {
    s.len() >= 2 && s[0] == 'M' && s.last() == 'Z' && all_path_chars(s)
}

/// Every character of a coordinate pair is a path character.
pub proof fn lemma_coord_pair_chars(x: int, y: int)
    ensures
        all_path_chars(coord_pair(x, y)),
        coord_pair(x, y).len() >= 3,
{
    lemma_fmt_millis_chars(millis_of(x));
    lemma_fmt_millis_chars(millis_of(y));
    let s = coord_pair(x, y);
    let a = fmt_millis(millis_of(x));
    let b = fmt_millis(millis_of(y));
    assert forall|i: int| 0 <= i < s.len() implies is_path_char(s[i]) by {
        if i < a.len() {
            assert(s[i] == a[i]);
        } else if i == a.len() {
            assert(s[i] == ',');
        } else {
            assert(s[i] == b[i - a.len() - 1]);
        }
    }
}

/// Path characters are closed under concatenation.
pub proof fn lemma_append_path_chars(a: Seq<char>, b: Seq<char>)
    requires
        all_path_chars(a),
        all_path_chars(b),
    ensures
        all_path_chars(a + b),
{
    assert forall|i: int| 0 <= i < (a + b).len() implies is_path_char((a + b)[i]) by {
        if i < a.len() {
            assert((a + b)[i] == a[i]);
        } else {
            assert((a + b)[i] == b[i - a.len()]);
        }
    }
}

/// A move command consists of path characters and starts with its letter.
pub proof fn lemma_move_str_chars(x: int, y: int)
    ensures
        all_path_chars(move_str(x, y)),
        move_str(x, y).len() >= 1,
        move_str(x, y)[0] == 'M',
{
    lemma_coord_pair_chars(x, y);
    lemma_append_path_chars(seq!['M'], coord_pair(x, y));
}

/// A line command consists of path characters.
pub proof fn lemma_line_str_chars(x: int, y: int)
    ensures
        all_path_chars(line_str(x, y)),
        line_str(x, y).len() >= 1,
{
    lemma_coord_pair_chars(x, y);
    lemma_append_path_chars(seq!['L'], coord_pair(x, y));
}

/// A cubic command consists of path characters.
pub proof fn lemma_cubic_str_chars(x1: int, y1: int, x2: int, y2: int, x: int, y: int)
    ensures
        all_path_chars(cubic_str(x1, y1, x2, y2, x, y)),
        cubic_str(x1, y1, x2, y2, x, y).len() >= 1,
{
    lemma_coord_pair_chars(x1, y1);
    lemma_coord_pair_chars(x2, y2);
    lemma_coord_pair_chars(x, y);
    lemma_append_path_chars(seq!['C'], coord_pair(x1, y1));
    lemma_append_path_chars(seq!['C'] + coord_pair(x1, y1), seq![' ']);
    lemma_append_path_chars(seq!['C'] + coord_pair(x1, y1) + seq![' '], coord_pair(x2, y2));
    lemma_append_path_chars(
        seq!['C'] + coord_pair(x1, y1) + seq![' '] + coord_pair(x2, y2),
        seq![' '],
    );
    lemma_append_path_chars(
        seq!['C'] + coord_pair(x1, y1) + seq![' '] + coord_pair(x2, y2) + seq![' '],
        coord_pair(x, y),
    );
}

} // verus!
