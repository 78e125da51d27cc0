//! Structured-markup emitter: open/close scoping over a stack of open tags,
//! attribute escaping, and self-closing elements.
//!
//! Attribute values carry an explicit tag: `Text` values have the
//! markup-reserved characters (`&`, `<`, `>`, `"`) replaced by their entity
//! forms on write; `Pre` values are constants already known safe and are
//! written verbatim.  A finished document is only obtainable once every
//! opened scope has been closed, so no unclosed fragment can be observed.

use vstd::prelude::*;

verus! {

/// The entity form of `&`.
pub open spec fn amp_seq() -> Seq<char> {
    seq!['&', 'a', 'm', 'p', ';']
}

/// The entity form of `<`.
pub open spec fn lt_seq() -> Seq<char> {
    seq!['&', 'l', 't', ';']
}

/// The entity form of `>`.
pub open spec fn gt_seq() -> Seq<char> {
    seq!['&', 'g', 't', ';']
}

/// The entity form of `"`.
pub open spec fn quot_seq() -> Seq<char> {
    seq!['&', 'q', 'u', 'o', 't', ';']
}

/// The escaped form of one character.
pub open spec fn escape_char(c: char) -> Seq<char> {
    if c == '&' {
        amp_seq()
    } else if c == '<' {
        lt_seq()
    } else if c == '>' {
        gt_seq()
    } else if c == '"' {
        quot_seq()
    } else {
        seq![c]
    }
}

/// The escaped form of a text: every markup-reserved character replaced by
/// its entity form.
pub open spec fn escape_text(s: Seq<char>) -> Seq<char>
    decreases s.len(),
{
    if s.len() == 0 {
        Seq::empty()
    } else {
        escape_text(s.drop_last()) + escape_char(s.last())
    }
}

/// Reverses `escape_text`: each entity becomes its character again.
pub open spec fn unescape_text(s: Seq<char>) -> Seq<char>
    decreases s.len(),
{
    if s.len() == 0 {
        Seq::empty()
    } else if s.len() >= 5 && s.subrange(0, 5) == amp_seq() {
        seq!['&'] + unescape_text(s.skip(5))
    } else if s.len() >= 4 && s.subrange(0, 4) == lt_seq() {
        seq!['<'] + unescape_text(s.skip(4))
    } else if s.len() >= 4 && s.subrange(0, 4) == gt_seq() {
        seq!['>'] + unescape_text(s.skip(4))
    } else if s.len() >= 6 && s.subrange(0, 6) == quot_seq() {
        seq!['"'] + unescape_text(s.skip(6))
    } else {
        seq![s[0]] + unescape_text(s.skip(1))
    }
}

/// Escaping distributes over concatenation.
pub proof fn lemma_escape_append(a: Seq<char>, b: Seq<char>)
    ensures
        escape_text(a + b) == escape_text(a) + escape_text(b),
    decreases b.len(),
{
    if b.len() == 0 {
        assert(a + b =~= a);
        assert(escape_text(a) + escape_text(b) =~= escape_text(a));
    } else {
        assert((a + b).drop_last() =~= a + b.drop_last());
        assert((a + b).last() == b.last());
        lemma_escape_append(a, b.drop_last());
        assert(escape_text(a) + escape_text(b.drop_last()) + escape_char(b.last()) =~= escape_text(
            a,
        ) + escape_text(b));
    }
}

/// Escaping a non-empty text is escaping its first character, then the rest.
pub proof fn lemma_escape_first(s: Seq<char>)
    requires
        s.len() > 0,
    ensures
        escape_text(s) == escape_char(s[0]) + escape_text(s.skip(1)),
{
    let head = seq![s[0]];
    assert(s =~= head + s.skip(1));
    lemma_escape_append(head, s.skip(1));
    assert(head.drop_last() =~= Seq::<char>::empty());
    assert(escape_text(Seq::<char>::empty()) == Seq::<char>::empty());
    assert(escape_text(head) == escape_text(head.drop_last()) + escape_char(head.last()));
    assert(escape_text(head) =~= escape_char(s[0]));
}

/// Escaped text never contains a raw `<`, `>` or `"`.
pub proof fn lemma_escape_no_specials(s: Seq<char>)
    ensures
        forall|i: int|
            0 <= i < escape_text(s).len() ==> {
                let c = #[trigger] escape_text(s)[i];
                c != '<' && c != '>' && c != '"'
            },
    decreases s.len(),
{
    if s.len() > 0 {
        lemma_escape_no_specials(s.drop_last());
        let left = escape_text(s.drop_last());
        let piece = escape_char(s.last());
        assert forall|i: int|
            0 <= i < escape_text(s).len() implies {
                let c = #[trigger] escape_text(s)[i];
                c != '<' && c != '>' && c != '"'
            } by {
            if i < left.len() {
                assert(escape_text(s)[i] == left[i]);
            } else {
                assert(escape_text(s)[i] == piece[i - left.len()]);
            }
        }
    }
}

/// Unescaping recovers the original text: escaping loses nothing.
pub proof fn lemma_escape_roundtrip(s: Seq<char>)
    ensures
        unescape_text(escape_text(s)) == s,
    decreases s.len(),
{
    if s.len() == 0 {
        assert(unescape_text(escape_text(s)) =~= s);
    } else {
        lemma_escape_first(s);
        lemma_escape_roundtrip(s.skip(1));
        let c = s[0];
        let e = escape_text(s);
        let rest = escape_text(s.skip(1));
        if c == '&' {
            assert(e.subrange(0, 5) =~= amp_seq());
            assert(e.skip(5) =~= rest);
            assert(unescape_text(e) =~= s);
        } else if c == '<' {
            assert(e[0] == '&' && e[1] == 'l');
            if e.len() >= 5 && e.subrange(0, 5) == amp_seq() {
                assert(e.subrange(0, 5)[1] == 'l');
                assert(false);
            }
            assert(e.subrange(0, 4) =~= lt_seq());
            assert(e.skip(4) =~= rest);
            assert(unescape_text(e) =~= s);
        } else if c == '>' {
            assert(e[0] == '&' && e[1] == 'g');
            if e.len() >= 5 && e.subrange(0, 5) == amp_seq() {
                assert(e.subrange(0, 5)[1] == 'g');
                assert(false);
            }
            if e.len() >= 4 && e.subrange(0, 4) == lt_seq() {
                assert(e.subrange(0, 4)[1] == 'g');
                assert(false);
            }
            assert(e.subrange(0, 4) =~= gt_seq());
            assert(e.skip(4) =~= rest);
            assert(unescape_text(e) =~= s);
        } else if c == '"' {
            assert(e[0] == '&' && e[1] == 'q');
            if e.len() >= 5 && e.subrange(0, 5) == amp_seq() {
                assert(e.subrange(0, 5)[1] == 'q');
                assert(false);
            }
            if e.len() >= 4 && e.subrange(0, 4) == lt_seq() {
                assert(e.subrange(0, 4)[1] == 'q');
                assert(false);
            }
            if e.len() >= 4 && e.subrange(0, 4) == gt_seq() {
                assert(e.subrange(0, 4)[1] == 'q');
                assert(false);
            }
            assert(e.subrange(0, 6) =~= quot_seq());
            assert(e.skip(6) =~= rest);
            assert(unescape_text(e) =~= s);
        } else {
            assert(e[0] == c);
            if e.len() >= 5 && e.subrange(0, 5) == amp_seq() {
                assert(e.subrange(0, 5)[0] == c);
                assert(false);
            }
            if e.len() >= 4 && e.subrange(0, 4) == lt_seq() {
                assert(e.subrange(0, 4)[0] == c);
                assert(false);
            }
            if e.len() >= 4 && e.subrange(0, 4) == gt_seq() {
                assert(e.subrange(0, 4)[0] == c);
                assert(false);
            }
            if e.len() >= 6 && e.subrange(0, 6) == quot_seq() {
                assert(e.subrange(0, 6)[0] == c);
                assert(false);
            }
            assert(e.skip(1) =~= rest);
            assert(unescape_text(e) =~= s);
        }
    }
}

/// Replaces the markup-reserved characters of `s` by their entity forms.
pub fn escape(s: &str) -> (r: String)
    ensures
        r@ == escape_text(s@),
{
    let n = s.unicode_len();
    let mut out = String::new();
    let mut i: usize = 0;
    while i < n
        invariant
            i <= n,
            n == s@.len(),
            out@ == escape_text(s@.take(i as int)),
        decreases n - i,
    {
        let c = s.get_char(i);
        if c == '&' {
            out.append("&amp;");
            proof {
                reveal_strlit("&amp;");
                assert("&amp;"@ =~= amp_seq());
            }
        } else if c == '<' {
            out.append("&lt;");
            proof {
                reveal_strlit("&lt;");
                assert("&lt;"@ =~= lt_seq());
            }
        } else if c == '>' {
            out.append("&gt;");
            proof {
                reveal_strlit("&gt;");
                assert("&gt;"@ =~= gt_seq());
            }
        } else if c == '"' {
            out.append("&quot;");
            proof {
                reveal_strlit("&quot;");
                assert("&quot;"@ =~= quot_seq());
            }
        } else {
            let piece = s.substring_char(i, i + 1);
            out.append(piece);
            proof {
                assert(piece@ =~= seq![s@[i as int]]);
            }
        }
        proof {
            assert(s@.take(i as int + 1).drop_last() =~= s@.take(i as int));
            assert(s@.take(i as int + 1).last() == s@[i as int]);
            assert(out@ =~= escape_text(s@.take(i as int + 1)));
        }
        i = i + 1;
    }
    proof {
        assert(s@.take(n as int) =~= s@);
    }
    out
}

/// An attribute value: `Text` is escaped on write, `Pre` is a constant
/// already known safe and written verbatim.
#[derive(Clone, Copy)]
pub enum AttrVal<'a> {
    Text(&'a str),
    Pre(&'a str),
}

/// The text written for an attribute value.
pub open spec fn attr_val_text(v: AttrVal) -> Seq<char> {
    match v {
        AttrVal::Text(s) => escape_text(s@),
        AttrVal::Pre(s) => s@,
    }
}

/// The text of one attribute with an already rendered value: a leading
/// space, the name, `="`, the value text, `"`.
pub open spec fn attr_str(name: Seq<char>, val: Seq<char>) -> Seq<char> {
    seq![' '] + name + seq!['=', '"'] + val + seq!['"']
}

/// The text written for one attribute.
pub open spec fn render_attr(name: Seq<char>, v: AttrVal) -> Seq<char> {
    attr_str(name, attr_val_text(v))
}

/// The text written for an attribute list, in order.
pub open spec fn render_attrs(attrs: Seq<(&str, AttrVal)>) -> Seq<char>
    decreases attrs.len(),
{
    if attrs.len() == 0 {
        Seq::empty()
    } else {
        render_attrs(attrs.drop_last()) + render_attr(attrs.last().0@, attrs.last().1)
    }
}

/// The text of an opening tag with already rendered attribute text.
pub open spec fn tag_open(tag: Seq<char>, attrs_text: Seq<char>) -> Seq<char> {
    seq!['<'] + tag + attrs_text + seq!['>']
}

/// The text of a self-closing tag with already rendered attribute text.
pub open spec fn tag_empty(tag: Seq<char>, attrs_text: Seq<char>) -> Seq<char> {
    seq!['<'] + tag + attrs_text + seq!['/', '>']
}

/// The text of a closing tag.
pub open spec fn tag_close(tag: Seq<char>) -> Seq<char> {
    seq!['<', '/'] + tag + seq!['>']
}

/// The text of an opening tag.
pub open spec fn open_tag_str(tag: Seq<char>, attrs: Seq<(&str, AttrVal)>) -> Seq<char> {
    tag_open(tag, render_attrs(attrs))
}

/// The text of a self-closing tag.
pub open spec fn empty_tag_str(tag: Seq<char>, attrs: Seq<(&str, AttrVal)>) -> Seq<char> {
    tag_empty(tag, render_attrs(attrs))
}

/// The text of a closing tag.
pub open spec fn close_tag_str(tag: Seq<char>) -> Seq<char> {
    tag_close(tag)
}

/// An empty attribute list renders as nothing.
pub proof fn lemma_attrs0(attrs: Seq<(&str, AttrVal)>)
    requires
        attrs.len() == 0,
    ensures
        render_attrs(attrs) == Seq::<char>::empty(),
{
}

/// Unfolds the rendering of a one-attribute list.
pub proof fn lemma_attrs1(attrs: Seq<(&str, AttrVal)>)
    requires
        attrs.len() == 1,
    ensures
        render_attrs(attrs) == render_attr(attrs[0].0@, attrs[0].1),
{
    assert(attrs.drop_last().len() == 0);
    lemma_attrs0(attrs.drop_last());
    assert(attrs.last() == attrs[0]);
    assert(render_attrs(attrs) == render_attrs(attrs.drop_last()) + render_attr(
        attrs.last().0@,
        attrs.last().1,
    ));
    assert(render_attrs(attrs) =~= render_attr(attrs[0].0@, attrs[0].1));
}

/// Unfolds the rendering of a two-attribute list.
pub proof fn lemma_attrs2(attrs: Seq<(&str, AttrVal)>)
    requires
        attrs.len() == 2,
    ensures
        render_attrs(attrs) == render_attr(attrs[0].0@, attrs[0].1) + render_attr(
            attrs[1].0@,
            attrs[1].1,
        ),
{
    lemma_attrs1(attrs.drop_last());
    assert(attrs.drop_last()[0] == attrs[0]);
    assert(render_attrs(attrs) =~= render_attr(attrs[0].0@, attrs[0].1) + render_attr(
        attrs[1].0@,
        attrs[1].1,
    ));
}

/// Unfolds the rendering of a four-attribute list.
pub proof fn lemma_attrs4(attrs: Seq<(&str, AttrVal)>)
    requires
        attrs.len() == 4,
    ensures
        render_attrs(attrs) == render_attr(attrs[0].0@, attrs[0].1) + render_attr(
            attrs[1].0@,
            attrs[1].1,
        ) + render_attr(attrs[2].0@, attrs[2].1) + render_attr(attrs[3].0@, attrs[3].1),
{
    lemma_attrs2(attrs.drop_last().drop_last());
    assert(attrs.drop_last().drop_last()[0] == attrs[0]);
    assert(attrs.drop_last().drop_last()[1] == attrs[1]);
    assert(attrs.drop_last()[2] == attrs[2]);
    assert(render_attrs(attrs.drop_last()) =~= render_attr(attrs[0].0@, attrs[0].1)
        + render_attr(attrs[1].0@, attrs[1].1) + render_attr(attrs[2].0@, attrs[2].1));
    assert(render_attrs(attrs) =~= render_attr(attrs[0].0@, attrs[0].1) + render_attr(
        attrs[1].0@,
        attrs[1].1,
    ) + render_attr(attrs[2].0@, attrs[2].1) + render_attr(attrs[3].0@, attrs[3].1));
}

/// Unfolds the rendering of a five-attribute list.
pub proof fn lemma_attrs5(attrs: Seq<(&str, AttrVal)>)
    requires
        attrs.len() == 5,
    ensures
        render_attrs(attrs) == render_attr(attrs[0].0@, attrs[0].1) + render_attr(
            attrs[1].0@,
            attrs[1].1,
        ) + render_attr(attrs[2].0@, attrs[2].1) + render_attr(attrs[3].0@, attrs[3].1)
            + render_attr(attrs[4].0@, attrs[4].1),
{
    lemma_attrs4(attrs.drop_last());
    assert(attrs.drop_last()[0] == attrs[0]);
    assert(attrs.drop_last()[1] == attrs[1]);
    assert(attrs.drop_last()[2] == attrs[2]);
    assert(attrs.drop_last()[3] == attrs[3]);
    assert(render_attrs(attrs) =~= render_attr(attrs[0].0@, attrs[0].1) + render_attr(
        attrs[1].0@,
        attrs[1].1,
    ) + render_attr(attrs[2].0@, attrs[2].1) + render_attr(attrs[3].0@, attrs[3].1) + render_attr(
        attrs[4].0@,
        attrs[4].1,
    ));
}

/// The fixed document preamble.
pub open spec fn header_str() -> Seq<char> {
    "<?xml version=\"1.0\" encoding=\"UTF-8\"?>"@
}

/// Renders an attribute list.
fn render_attrs_exec(attrs: &[(&str, AttrVal)]) -> (out: String)
    ensures
        out@ == render_attrs(attrs@),
{
    let mut out = String::new();
    let n = attrs.len();
    let mut i: usize = 0;
    while i < n
        invariant
            i <= n,
            n == attrs@.len(),
            out@ == render_attrs(attrs@.take(i as int)),
        decreases n - i,
    {
        let (name, val) = attrs[i];
        out.append(" ");
        proof {
            reveal_strlit(" ");
            assert(" "@ =~= seq![' ']);
        }
        out.append(name);
        out.append("=\"");
        proof {
            reveal_strlit("=\"");
            assert("=\""@ =~= seq!['=', '"']);
        }
        match val {
            AttrVal::Text(t) => {
                let e = escape(t);
                out.append(e.as_str());
            },
            AttrVal::Pre(t) => {
                out.append(t);
            },
        }
        out.append("\"");
        proof {
            reveal_strlit("\"");
            assert("\""@ =~= seq!['"']);
            assert(attrs@.take(i as int + 1).drop_last() =~= attrs@.take(i as int));
            assert(attrs@.take(i as int + 1).last() == attrs@[i as int]);
            assert(out@ =~= render_attrs(attrs@.take(i as int + 1)));
        }
        i = i + 1;
    }
    proof {
        assert(attrs@.take(n as int) =~= attrs@);
    }
    out
}

/// A structured-markup writer owning the output text and the stack of open
/// scopes.
pub struct Writer {
    out: String,
    open: Vec<String>,
}

impl Writer {
    /// The text emitted so far.
    pub closed spec fn text(&self) -> Seq<char> {
        self.out@
    }

    /// The names of the scopes now open, oldest first.
    pub closed spec fn open_tags(&self) -> Seq<Seq<char>> {
        self.open@.map_values(|t: String| t@)
    }

    /// A writer whose text is the fixed document preamble.
    pub fn new() -> (w: Writer)
        ensures
            w.text() == header_str(),
            w.open_tags() == Seq::<Seq<char>>::empty(),
    {
        let mut out = String::new();
        out.append("<?xml version=\"1.0\" encoding=\"UTF-8\"?>");
        let w = Writer { out, open: Vec::new() };
        proof {
            assert(w.text() =~= header_str());
            assert(w.open_tags() =~= Seq::<Seq<char>>::empty());
        }
        w
    }

    /// Emits an opening tag and pushes its scope.
    pub fn open_tag(&mut self, tag: &str, attrs: &[(&str, AttrVal)])
        ensures
            final(self).text() == old(self).text() + open_tag_str(tag@, attrs@),
            final(self).open_tags() == old(self).open_tags().push(tag@),
    {
        self.out.append("<");
        proof {
            reveal_strlit("<");
            assert("<"@ =~= seq!['<']);
        }
        self.out.append(tag);
        let a = render_attrs_exec(attrs);
        self.out.append(a.as_str());
        self.out.append(">");
        proof {
            reveal_strlit(">");
            assert(">"@ =~= seq!['>']);
        }
        let owned = tag.to_owned();
        self.open.push(owned);
        proof {
            assert(self.text() =~= old(self).text() + open_tag_str(tag@, attrs@));
            assert(self.open_tags() =~= old(self).open_tags().push(tag@));
        }
    }

    /// Emits a self-closing element; no scope is opened.
    pub fn empty_tag(&mut self, tag: &str, attrs: &[(&str, AttrVal)])
        ensures
            final(self).text() == old(self).text() + empty_tag_str(tag@, attrs@),
            final(self).open_tags() == old(self).open_tags(),
    {
        self.out.append("<");
        proof {
            reveal_strlit("<");
            assert("<"@ =~= seq!['<']);
        }
        self.out.append(tag);
        let a = render_attrs_exec(attrs);
        self.out.append(a.as_str());
        self.out.append("/>");
        proof {
            reveal_strlit("/>");
            assert("/>"@ =~= seq!['/', '>']);
            assert(self.text() =~= old(self).text() + empty_tag_str(tag@, attrs@));
        }
    }

    /// Emits the closing tag of the innermost open scope and pops it.
    pub fn close_tag(&mut self)
        requires
            old(self).open_tags().len() > 0,
        ensures
            final(self).text() == old(self).text() + close_tag_str(
                old(self).open_tags().last(),
            ),
            final(self).open_tags() == old(self).open_tags().drop_last(),
    {
        let t_opt = self.open.pop();
        match t_opt {
            Option::Some(t) => {
                self.out.append("</");
                proof {
                    reveal_strlit("</");
                    assert("</"@ =~= seq!['<', '/']);
                }
                self.out.append(t.as_str());
                self.out.append(">");
                proof {
                    reveal_strlit(">");
                    assert(">"@ =~= seq!['>']);
                    assert(self.text() =~= old(self).text() + close_tag_str(
                        old(self).open_tags().last(),
                    ));
                    assert(self.open_tags() =~= old(self).open_tags().drop_last());
                }
            },
            Option::None => {
                proof {
                    assert(false);
                }
            },
        }
    }

    /// Emits `text` verbatim inside the current scope; reserved for
    /// pre-built strings known not to require escaping.
    pub fn write_raw(&mut self, text: &str)
        ensures
            final(self).text() == old(self).text() + text@,
            final(self).open_tags() == old(self).open_tags(),
    {
        self.out.append(text);
    }

    /// The finished document; only obtainable once every opened scope has
    /// been closed again.
    pub fn finish(self) -> (s: String)
        requires
            self.open_tags().len() == 0,
        ensures
            s@ == self.text(),
    {
        self.out
    }
}

} // verus!
