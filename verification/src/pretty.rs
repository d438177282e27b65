//! The document / printer engine.
//!
//! AST nodes render themselves into a [`Doc`] tree built from literal text,
//! soft and hard line breaks, indentation groups and concatenation.  A
//! separate pass lays the tree out against a configured maximum line width:
//! each group makes a single fit decision, so the same tree and width always
//! produce the same text.

use vstd::prelude::*;
use vstd::string::*;

verus! {

/// Number of spaces one indentation level adds inside a layout group.
pub const INDENT: usize = 4;

/// A layout document.
pub enum Doc {
    /// Literal text, emitted as is.
    Text(String),
    /// A break rendered as one space when the enclosing group fits on the
    /// line, and as a newline plus indentation otherwise.
    SoftBreak,
    /// A break that always produces a newline plus indentation.
    HardBreak,
    /// An indentation group: its extra indent applies to every break inside,
    /// and the whole group makes one fit decision.
    Group(usize, Box<Doc>),
    /// Two documents, one after the other.
    Pair(Box<Doc>, Box<Doc>),
    /// The empty document.
    Empty,
}

/// The mathematical shape of a document: text as character sequences.
#[verifier::ext_equal]
pub enum DocShape {
    Text(Seq<char>),
    SoftBreak,
    HardBreak,
    Group(nat, Box<DocShape>),
    Pair(Box<DocShape>, Box<DocShape>),
    Empty,
}

/// The shape of a document.
pub open spec fn doc_shape(d: Doc) -> DocShape
    decreases d,
{
    match d {
        Doc::Text(s) => DocShape::Text(s@),
        Doc::SoftBreak => DocShape::SoftBreak,
        Doc::HardBreak => DocShape::HardBreak,
        Doc::Group(e, b) => DocShape::Group(e as nat, Box::new(doc_shape(*b))),
        Doc::Pair(a, b) => DocShape::Pair(Box::new(doc_shape(*a)), Box::new(doc_shape(*b))),
        Doc::Empty => DocShape::Empty,
    }
}

/// Addition on column counts, capped at the machine word: columns are
/// measured in `usize` and saturate rather than wrap.
pub open spec fn cap_add(a: nat, b: nat) -> nat {
    if a + b > usize::MAX {
        usize::MAX as nat
    } else {
        a + b
    }
}

/// A length capped at the machine word.
pub open spec fn cap(n: nat) -> nat {
    if n > usize::MAX {
        usize::MAX as nat
    } else {
        n
    }
}

fn sat_add(a: usize, b: usize) -> (r: usize)
    ensures
        r as nat == cap_add(a as nat, b as nat),
{
    if a > usize::MAX - b {
        usize::MAX
    } else {
        a + b
    }
}

/// The width a document takes when laid out on a single line.
pub open spec fn flat_len(d: DocShape) -> nat
    decreases d,
{
    match d {
        DocShape::Text(s) => cap(s.len()),
        DocShape::SoftBreak => 1,
        DocShape::HardBreak => 0,
        DocShape::Group(_, b) => flat_len(*b),
        DocShape::Pair(a, b) => cap_add(flat_len(*a), flat_len(*b)),
        DocShape::Empty => 0,
    }
}

/// Whether a document contains a hard break, which forces its group broken.
pub open spec fn has_hard_break(d: DocShape) -> bool
    decreases d,
{
    match d {
        DocShape::Text(_) => false,
        DocShape::SoftBreak => false,
        DocShape::HardBreak => true,
        DocShape::Group(_, b) => has_hard_break(*b),
        DocShape::Pair(a, b) => has_hard_break(*a) || has_hard_break(*b),
        DocShape::Empty => false,
    }
}

/// `n` spaces.
pub open spec fn spaces(n: nat) -> Seq<char> {
    Seq::new(n, |i: int| ' ')
}

/// Lay a document out.  `indent` is the current indentation, `col` the
/// current column, and `fit` whether the enclosing group fits on one line.
/// Returns the emitted text and the column after it.
pub open spec fn layout(d: DocShape, width: nat, indent: nat, col: nat, fit: bool) -> (Seq<
    char,
>, nat)
    decreases d,
{
    match d {
        DocShape::Text(s) => (s, cap_add(col, cap(s.len()))),
        DocShape::SoftBreak => if fit {
            (seq![' '], cap_add(col, 1))
        } else {
            (seq!['\n'] + spaces(indent), indent)
        },
        DocShape::HardBreak => (seq!['\n'] + spaces(indent), indent),
        DocShape::Group(extra, b) => {
            let inner_indent = cap_add(indent, extra);
            let f = !has_hard_break(*b) && cap_add(col, flat_len(*b)) <= width;
            layout(*b, width, inner_indent, col, f)
        },
        DocShape::Pair(a, b) => {
            let first = layout(*a, width, indent, col, fit);
            let second = layout(*b, width, indent, first.1, fit);
            (first.0 + second.0, second.1)
        },
        DocShape::Empty => (Seq::empty(), col),
    }
}

/// The text of a document at a given maximum line width.
pub open spec fn rendered(d: DocShape, width: nat) -> Seq<char> {
    layout(d, width, 0, 0, false).0
}

/// The text of a document laid out on one line: every soft break is one
/// space.
pub open spec fn flat_text(d: DocShape) -> Seq<char>
    decreases d,
{
    match d {
        DocShape::Text(s) => s,
        DocShape::SoftBreak => seq![' '],
        DocShape::HardBreak => seq!['\n'],
        DocShape::Group(_, b) => flat_text(*b),
        DocShape::Pair(a, b) => flat_text(*a) + flat_text(*b),
        DocShape::Empty => Seq::empty(),
    }
}

proof fn lemma_flat_len_bounded(d: DocShape)
    ensures
        flat_len(d) <= usize::MAX as nat,
    decreases d,
{
    match d {
        DocShape::Group(_, b) => lemma_flat_len_bounded(*b),
        DocShape::Pair(a, b) => {
            lemma_flat_len_bounded(*a);
            lemma_flat_len_bounded(*b);
        },
        _ => {},
    }
}

/// Law: content that fits stays on one line.  A document without hard
/// breaks whose flat width fits between the current column and the
/// configured width renders, in fitting mode, exactly as its one-line
/// text, whatever the indentation; no break yields.
pub proof fn lemma_fit_renders_flat(d: DocShape, width: nat, indent: nat, col: nat)
    requires
        !has_hard_break(d),
        col <= usize::MAX as nat,
        cap_add(col, flat_len(d)) <= width,
    ensures
        layout(d, width, indent, col, true).0 == flat_text(d),
        layout(d, width, indent, col, true).1 == cap_add(col, flat_len(d)),
    decreases d,
{
    match d {
        DocShape::Text(_) => {},
        DocShape::SoftBreak => {},
        DocShape::HardBreak => {},
        DocShape::Group(e, b) => {
            lemma_fit_renders_flat(*b, width, cap_add(indent, e), col);
        },
        DocShape::Pair(a, b) => {
            lemma_flat_len_bounded(*a);
            lemma_flat_len_bounded(*b);
            assert(flat_len(*a) <= flat_len(d));
            lemma_fit_renders_flat(*a, width, indent, col);
            let col1 = cap_add(col, flat_len(*a));
            assert(cap_add(col1, flat_len(*b)) == cap_add(col, flat_len(d)));
            lemma_fit_renders_flat(*b, width, indent, col1);
        },
        DocShape::Empty => {},
    }
}

fn measure(d: &Doc) -> (m: usize)
    ensures
        m as nat == flat_len(doc_shape(*d)),
    decreases *d,
{
    match d {
        Doc::Text(s) => s.as_str().unicode_len(),
        Doc::SoftBreak => 1,
        Doc::HardBreak => 0,
        Doc::Group(_, b) => measure(&**b),
        Doc::Pair(a, b) => {
            let ma = measure(&**a);
            let mb = measure(&**b);
            sat_add(ma, mb)
        },
        Doc::Empty => 0,
    }
}

fn has_hard(d: &Doc) -> (h: bool)
    ensures
        h == has_hard_break(doc_shape(*d)),
    decreases *d,
{
    match d {
        Doc::Text(_) => false,
        Doc::SoftBreak => false,
        Doc::HardBreak => true,
        Doc::Group(_, b) => has_hard(&**b),
        Doc::Pair(a, b) => {
            let ha = has_hard(&**a);
            if ha {
                true
            } else {
                has_hard(&**b)
            }
        },
        Doc::Empty => false,
    }
}

fn newline_into(out: &mut String, indent: usize)
    ensures
        final(out)@ == old(out)@ + seq!['\n'] + spaces(indent as nat),
{
    out.append("\n");
    proof {
        reveal_strlit("\n");
        assert(out@ =~= old(out)@ + seq!['\n']);
    }
    let ghost base: Seq<char> = out@;
    let mut j: usize = 0;
    proof {
        assert(spaces(0) =~= Seq::<char>::empty());
        assert(out@ =~= base + spaces(0));
    }
    while j < indent
        invariant
            j <= indent,
            out@ == base + spaces(j as nat),
        decreases indent - j,
    {
        out.append(" ");
        j = j + 1;
        proof {
            reveal_strlit(" ");
            assert(spaces(j as nat) =~= spaces((j - 1) as nat) + seq![' ']);
            assert(out@ =~= base + spaces(j as nat));
        }
    }
    proof {
        assert(out@ =~= old(out)@ + seq!['\n'] + spaces(indent as nat));
    }
}

fn layout_into(d: &Doc, width: usize, indent: usize, col: usize, fit: bool, out: &mut String) -> (c:
    usize)
    ensures
        final(out)@ == old(out)@ + layout(
            doc_shape(*d),
            width as nat,
            indent as nat,
            col as nat,
            fit,
        ).0,
        c as nat == layout(doc_shape(*d), width as nat, indent as nat, col as nat, fit).1,
    decreases *d,
{
    match d {
        Doc::Text(s) => {
            let n = s.as_str().unicode_len();
            out.append(s.as_str());
            sat_add(col, n)
        },
        Doc::SoftBreak => {
            if fit {
                out.append(" ");
                proof {
                    reveal_strlit(" ");
                    assert(out@ =~= old(out)@ + seq![' ']);
                }
                sat_add(col, 1)
            } else {
                newline_into(out, indent);
                proof {
                    assert(out@ =~= old(out)@ + (seq!['\n'] + spaces(indent as nat)));
                }
                indent
            }
        },
        Doc::HardBreak => {
            newline_into(out, indent);
            proof {
                assert(out@ =~= old(out)@ + (seq!['\n'] + spaces(indent as nat)));
            }
            indent
        },
        Doc::Group(extra, b) => {
            let inner_indent = sat_add(indent, *extra);
            let hard = has_hard(&**b);
            let m = measure(&**b);
            let f = !hard && sat_add(col, m) <= width;
            layout_into(&**b, width, inner_indent, col, f, out)
        },
        Doc::Pair(a, b) => {
            let ghost base: Seq<char> = out@;
            let c1 = layout_into(&**a, width, indent, col, fit, out);
            let c2 = layout_into(&**b, width, indent, c1, fit, out);
            proof {
                let first = layout(doc_shape(*&**a), width as nat, indent as nat, col as nat, fit);
                let second = layout(doc_shape(*&**b), width as nat, indent as nat, first.1, fit);
                assert(out@ =~= base + (first.0 + second.0));
            }
            c2
        },
        Doc::Empty => col,
    }
}

/// Render a document against a configured maximum line width.  Rendering is
/// total and deterministic: the text depends on the document and the width
/// alone.
pub fn render_doc(d: &Doc, width: usize) -> (r: String)
    ensures
        r@ == rendered(doc_shape(*d), width as nat),
{
    let mut out = String::new();
    let _last_col = layout_into(d, width, 0, 0, false, &mut out);
    out
}

} // verus!
