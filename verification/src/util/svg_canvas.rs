//! An SVG document that elements are written to.

use vstd::prelude::*;

use crate::util::text::{digits, joined, number_text};

verus! {

/// An SVG document in the making: its size, title, body and definitions
pub struct SVGCanvas {
    width: usize,
    height: usize,
    title: String,
    canvas: String,
    defs: Vec<(String, String)>,
}

/// The value of an [`SVGCanvas`]: its size, its title, the text of its body, and its
/// definitions as pairs of an identifier and the element's text, in the order first added.
pub struct SVGCanvasView {
    pub width: usize,
    pub height: usize,
    pub title: Seq<char>,
    pub canvas: Seq<char>,
    pub defs: Seq<(Seq<char>, Seq<char>)>,
}

/// The values of pairs of strings.
pub open spec fn pairs_view(pairs: Seq<(String, String)>) -> Seq<(Seq<char>, Seq<char>)> {
    pairs.map_values(|p: (String, String)| (p.0@, p.1@))
}

/// The values of attributes: pairs of a name and a value.
pub open spec fn attrs_view<'a>(attrs: Seq<(&'a str, String)>) -> Seq<(Seq<char>, Seq<char>)> {
    attrs.map_values(|p: (&'a str, String)| (p.0@, p.1@))
}

impl View for SVGCanvas {
    type V = SVGCanvasView;

    closed spec fn view(&self) -> SVGCanvasView {
        SVGCanvasView {
            width: self.width,
            height: self.height,
            title: self.title@,
            canvas: self.canvas@,
            defs: pairs_view(self.defs@),
        }
    }
}

/// Whether no two definitions have the same identifier.
pub open spec fn defs_unique(defs: Seq<(Seq<char>, Seq<char>)>) -> bool {
    forall|i: int, j: int| 0 <= i < j < defs.len() ==> defs[i].0 != defs[j].0
}

/// The text of attributes: ` name="value"` for each, in order.
pub open spec fn attrs_text(attrs: Seq<(Seq<char>, Seq<char>)>) -> Seq<char>
    decreases attrs.len(),
{
    if attrs.len() == 0 {
        seq![]
    } else {
        attrs_text(attrs.drop_last()) + " "@ + attrs.last().0 + "=\""@ + attrs.last().1 + "\""@
    }
}

/// The text of an element: its opening tag with its attributes, then either its inner text
/// on lines of its own and the closing tag, or the end of an empty element.
pub open spec fn elem_text(
    elem: Seq<char>,
    attrs: Seq<(Seq<char>, Seq<char>)>,
    inner: Option<Seq<char>>,
) -> Seq<char> {
    "<"@ + elem + attrs_text(attrs) + match inner {
        Some(body) => ">\n"@ + body + "\n</"@ + elem + ">"@,
        None => " />\n"@,
    }
}

/// The attributes with every `id` attribute replaced by one with the given value, last.
pub open spec fn with_id(attrs: Seq<(Seq<char>, Seq<char>)>, id: Seq<char>) -> Seq<
    (Seq<char>, Seq<char>),
> {
    without_attr(attrs, "id"@).push(("id"@, id))
}

/// The attributes other than those with the given name, in order.
pub open spec fn without_attr(attrs: Seq<(Seq<char>, Seq<char>)>, name: Seq<char>) -> Seq<
    (Seq<char>, Seq<char>),
>
    decreases attrs.len(),
{
    if attrs.len() == 0 {
        seq![]
    } else {
        let rest = without_attr(attrs.drop_last(), name);
        if attrs.last().0 == name {
            rest
        } else {
            rest.push(attrs.last())
        }
    }
}

/// The definitions with the element for `id` set: replaced where `id` already has one,
/// added at the end otherwise.
pub open spec fn set_def(defs: Seq<(Seq<char>, Seq<char>)>, id: Seq<char>, elem: Seq<char>) -> Seq<
    (Seq<char>, Seq<char>),
> {
    if exists|i: int| 0 <= i < defs.len() && defs[i].0 == id {
        let i = choose|i: int| 0 <= i < defs.len() && defs[i].0 == id;
        defs.update(i, (id, elem))
    } else {
        defs.push((id, elem))
    }
}

/// The text of the whole document.
pub open spec fn document_text(v: SVGCanvasView) -> Seq<char> {
    "<svg viewBox=\"0 0 "@ + digits(v.width as nat, 10) + " "@ + digits(v.height as nat, 10)
        + "\" preserveAspectRatio=\"xMidYMid meet\" width=\"100%\" height=\"100%\" xmlns=\"http://www.w3.org/2000/svg\" xmlns:xlink=\"http://www.w3.org/1999/xlink\">\n<title>"@
        + v.title + "</title>\n<defs>\n"@ + joined(
        v.defs.map_values(|d: (Seq<char>, Seq<char>)| d.1),
        "\n"@,
    ) + "\n</defs>\n"@ + v.canvas + "\n</svg>"@
}

impl SVGCanvas {
    /// Whether no two definitions share an identifier.
    pub open spec fn wf(&self) -> bool {
        defs_unique(self@.defs)
    }

    /// An empty canvas of the given size
    pub fn new(width: usize, height: usize) -> (canvas: SVGCanvas)
        ensures
            canvas.wf(),
            canvas@ == (SVGCanvasView {
                width,
                height,
                title: seq![],
                canvas: seq![],
                defs: seq![],
            }),
    {
        let canvas = SVGCanvas {
            width,
            height,
            title: String::new(),
            canvas: String::new(),
            defs: Vec::new(),
        };
        proof {
            assert(pairs_view(canvas.defs@) =~= seq![]);
        }
        canvas
    }

    /// An empty square canvas
    pub fn square(size: usize) -> (canvas: SVGCanvas)
        ensures
            canvas.wf(),
            canvas@ == (SVGCanvasView {
                width: size,
                height: size,
                title: seq![],
                canvas: seq![],
                defs: seq![],
            }),
    {
        SVGCanvas::new(size, size)
    }

    pub fn width(&self) -> (width: usize)
        ensures
            width == self@.width,
    {
        self.width
    }

    pub fn height(&self) -> (height: usize)
        ensures
            height == self@.height,
    {
        self.height
    }

    /// Sets the title of the document
    pub fn set_title(&mut self, title: String)
        requires
            old(self).wf(),
        ensures
            final(self).wf(),
            final(self)@ == (SVGCanvasView { title: title@, ..old(self)@ }),
    {
        self.title = title;
    }

    /// Adds an element to the body of the document
    pub fn write_elem(&mut self, elem: &str, attrs: Vec<(&str, String)>, inner: Option<String>)
        requires
            old(self).wf(),
        ensures
            final(self).wf(),
            final(self)@ == (SVGCanvasView {
                canvas: old(self)@.canvas + elem_text(elem@, attrs_view(attrs@), inner_view(inner)),
                ..old(self)@
            }),
    {
        let text = Self::generate_elem(elem, attrs, inner);
        self.canvas.append(text.as_str());
    }

    /// The text of an element with the given attributes, in order, and inner text
    pub fn generate_elem(elem: &str, attrs: Vec<(&str, String)>, inner: Option<String>) -> (text:
        String)
        ensures
            text@ == elem_text(elem@, attrs_view(attrs@), inner_view(inner)),
    {
        let mut text = "<".to_owned();
        text.append(elem);
        let mut i: usize = 0;
        while i < attrs.len()
            invariant
                i <= attrs@.len(),
                text@ == "<"@ + elem@ + attrs_text(attrs_view(attrs@).take(i as int)),
            decreases attrs@.len() - i,
        {
            text.append(" ");
            text.append(attrs[i].0);
            text.append("=\"");
            text.append(attrs[i].1.as_str());
            text.append("\"");
            proof {
                assert(attrs_view(attrs@).take(i + 1).drop_last() =~= attrs_view(attrs@).take(
                    i as int,
                ));
            }
            i += 1;
        }
        proof {
            assert(attrs_view(attrs@).take(attrs@.len() as int) =~= attrs_view(attrs@));
        }
        match inner {
            Some(body) => {
                text.append(">\n");
                text.append(body.as_str());
                text.append("\n</");
                text.append(elem);
                text.append(">");
            },
            None => {
                text.append(" />\n");
            },
        }
        text
    }

    /// Adds a definition: the element, with an `id` attribute, is kept under that identifier
    /// and replaces any definition that had it
    pub fn add_def(
        &mut self,
        id: &str,
        elem: &str,
        attrs: Vec<(&str, String)>,
        inner: Option<String>,
    )
        requires
            old(self).wf(),
        ensures
            final(self).wf(),
            final(self)@ == (SVGCanvasView {
                defs: set_def(
                    old(self)@.defs,
                    id@,
                    elem_text(elem@, with_id(attrs_view(attrs@), id@), inner_view(inner)),
                ),
                ..old(self)@
            }),
    {
        let ghost given = attrs_view(attrs@);
        let mut id_attrs: Vec<(&str, String)> = Vec::new();
        let mut i: usize = 0;
        while i < attrs.len()
            invariant
                i <= attrs@.len(),
                given == attrs_view(attrs@),
                attrs_view(id_attrs@) == without_attr(given.take(i as int), "id"@),
            decreases attrs@.len() - i,
        {
            let ghost before = attrs_view(id_attrs@);
            proof {
                assert(given.take(i + 1).drop_last() =~= given.take(i as int));
                assert(given.take(i + 1).last() == given[i as int]);
            }
            if !crate::util::text::str_eq(attrs[i].0, "id") {
                id_attrs.push((attrs[i].0, attrs[i].1.clone()));
                proof {
                    assert(attrs_view(id_attrs@) =~= before.push(given[i as int]));
                }
            } else {
                proof {
                    assert(attrs_view(id_attrs@) =~= before);
                }
            }
            i += 1;
        }
        proof {
            assert(given.take(attrs@.len() as int) =~= given);
        }
        id_attrs.push(("id", id.to_owned()));
        proof {
            assert(attrs_view(id_attrs@) =~= with_id(given, id@));
        }
        let ghost element = elem_text(elem@, with_id(given, id@), inner_view(inner));
        let text = Self::generate_elem(elem, id_attrs, inner);
        let ghost old_defs = self@.defs;
        let mut k: usize = 0;
        while k < self.defs.len()
            invariant
                k <= self.defs@.len(),
                self@ == old(self)@,
                self.wf(),
                text@ == element,
                element == elem_text(elem@, with_id(attrs_view(attrs@), id@), inner_view(inner)),
                old_defs == pairs_view(self.defs@),
                defs_unique(old_defs),
                forall|j: int| 0 <= j < k ==> old_defs[j].0 != id@,
            decreases self.defs@.len() - k,
        {
            if crate::util::text::str_eq(self.defs[k].0.as_str(), id) {
                let ghost found = k as int;
                self.defs.set(k, (id.to_owned(), text));
                proof {
                    assert(old_defs[found].0 == id@);
                    let c = choose|i: int| 0 <= i < old_defs.len() && old_defs[i].0 == id@;
                    assert(c == found);
                    assert(pairs_view(self.defs@) =~= old_defs.update(found, (id@, text@)));
                }
                return;
            }
            k += 1;
        }
        self.defs.push((id.to_owned(), text));
        proof {
            assert(pairs_view(self.defs@) =~= old_defs.push((id@, text@)));
        }
    }

    /// The whole document, as text
    pub fn render(&self) -> (text: String)
        ensures
            text@ == document_text(self@),
    {
        let mut text = "<svg viewBox=\"0 0 ".to_owned();
        text.append(number_text(self.width as u64, 10).as_str());
        text.append(" ");
        text.append(number_text(self.height as u64, 10).as_str());
        text.append(
            "\" preserveAspectRatio=\"xMidYMid meet\" width=\"100%\" height=\"100%\" xmlns=\"http://www.w3.org/2000/svg\" xmlns:xlink=\"http://www.w3.org/1999/xlink\">\n<title>",
        );
        text.append(self.title.as_str());
        text.append("</title>\n<defs>\n");
        let mut elems: Vec<String> = Vec::new();
        let mut i: usize = 0;
        while i < self.defs.len()
            invariant
                i <= self.defs@.len(),
                elems@.len() == i,
                elems@.map_values(|p: String| p@) == pairs_view(self.defs@).map_values(
                    |d: (Seq<char>, Seq<char>)| d.1,
                ).take(i as int),
            decreases self.defs@.len() - i,
        {
            let ghost before = elems@;
            elems.push(self.defs[i].1.clone());
            proof {
                assert(elems@ == before.push(elems@[i as int]));
                assert(elems@[i as int]@ == pairs_view(self.defs@)[i as int].1);
                assert(elems@.map_values(|p: String| p@) =~= pairs_view(self.defs@).map_values(
                    |d: (Seq<char>, Seq<char>)| d.1,
                ).take(i + 1));
            }
            i += 1;
        }
        proof {
            assert(pairs_view(self.defs@).map_values(|d: (Seq<char>, Seq<char>)| d.1).take(
                self.defs@.len() as int,
            ) =~= pairs_view(self.defs@).map_values(|d: (Seq<char>, Seq<char>)| d.1));
        }
        let defs = crate::util::text::join(elems.as_slice(), "\n");
        text.append(defs.as_str());
        text.append("\n</defs>\n");
        text.append(self.canvas.as_str());
        text.append("\n</svg>");
        text
    }
}

/// The value of an optional inner text.
pub open spec fn inner_view(inner: Option<String>) -> Option<Seq<char>> {
    match inner {
        Some(s) => Some(s@),
        None => None,
    }
}

/// Setting the definition of an identifier leaves exactly one definition for it, holding the
/// new element; the definitions of other identifiers stay as they were, and identifiers stay
/// unique.
pub proof fn lemma_set_def(defs: Seq<(Seq<char>, Seq<char>)>, id: Seq<char>, elem: Seq<char>)
    requires
        defs_unique(defs),
    ensures
        defs_unique(set_def(defs, id, elem)),
        exists|k: int|
            0 <= k < set_def(defs, id, elem).len() && set_def(defs, id, elem)[k] == (id, elem),
        forall|j: int, k: int|
            0 <= j < set_def(defs, id, elem).len() && 0 <= k < set_def(defs, id, elem).len()
                && set_def(defs, id, elem)[j].0 == id && set_def(defs, id, elem)[k].0 == id
                ==> j == k,
        forall|j: int|
            0 <= j < defs.len() && defs[j].0 != id ==> set_def(defs, id, elem).contains(
                #[trigger] defs[j],
            ),
        forall|j: int|
            0 <= j < set_def(defs, id, elem).len() && (#[trigger] set_def(defs, id, elem)[j]).0
                != id ==> defs.contains(set_def(defs, id, elem)[j]),
{
    let r = set_def(defs, id, elem);
    if exists|i: int| 0 <= i < defs.len() && defs[i].0 == id {
        let i = choose|i: int| 0 <= i < defs.len() && defs[i].0 == id;
        assert(r[i] == (id, elem));
        assert forall|j: int| 0 <= j < defs.len() && defs[j].0 != id implies r.contains(
            #[trigger] defs[j],
        ) by {
            assert(r[j] == defs[j]);
        }
        assert forall|j: int| 0 <= j < r.len() && (#[trigger] r[j]).0 != id implies defs.contains(
            r[j],
        ) by {
            assert(r[j] == defs[j]);
        }
    } else {
        assert(r[defs.len() as int] == (id, elem));
        assert forall|j: int| 0 <= j < defs.len() && defs[j].0 != id implies r.contains(
            #[trigger] defs[j],
        ) by {
            assert(r[j] == defs[j]);
        }
        assert forall|j: int| 0 <= j < r.len() && (#[trigger] r[j]).0 != id implies defs.contains(
            r[j],
        ) by {
            assert(r[j] == defs[j]);
        }
    }
}

} // verus!
