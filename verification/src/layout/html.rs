//! Trees of markup.

use vstd::prelude::*;
use vstd::string::StringExecFns;

verus! {

/// A tree of markup as the contracts see it.
pub enum Markup {
    /// Plain text.
    Text(Seq<char>),
    /// An element.
    Node {
        /// Name of the element.
        tag: Seq<char>,
        /// Attributes, each a name and a value, in order.
        attrs: Seq<(Seq<char>, Seq<char>)>,
        /// What the element contains, in order.
        children: Seq<Markup>,
    },
    /// Trees side by side, without an element around them.
    Fragment(Seq<Markup>),
}

/// A tree of markup.
#[derive(Debug, PartialEq, Eq)]
pub enum Html {
    /// Plain text.
    Text(String),
    /// An element.
    Node {
        /// Name of the element.
        tag: String,
        /// Attributes, each a name and a value, in order.
        attrs: Vec<(String, String)>,
        /// What the element contains, in order.
        children: Vec<Html>,
    },
    /// Trees side by side, without an element around them.
    Fragment(Vec<Html>),
}

impl Html {
    /// The tree as the contracts see it.
    pub open spec fn markup(&self) -> Markup
        decreases self,
    {
        match self {
            Html::Text(text) => Markup::Text(text@),
            Html::Node { tag, attrs, children } => Markup::Node {
                tag: tag@,
                attrs: attrs.deep_view(),
                children: Seq::new(
                    children@.len(),
                    |i: int|
                        if 0 <= i < children@.len() {
                            children@[i].markup()
                        } else {
                            Markup::Text(Seq::empty())
                        },
                ),
            },
            Html::Fragment(children) => Markup::Fragment(
                Seq::new(
                    children@.len(),
                    |i: int|
                        if 0 <= i < children@.len() {
                            children@[i].markup()
                        } else {
                            Markup::Text(Seq::empty())
                        },
                ),
            ),
        }
    }

    /// Plain text.
    pub fn text(text: &str) -> (res: Html)
        ensures
            res.markup() == Markup::Text(text@),
    {
        Html::Text(String::from_str(text))
    }
}

/// The element `tag` with the attribute `name` set to `value`, and `children`.
pub open spec fn element(
    tag: Seq<char>,
    name: Seq<char>,
    value: Seq<char>,
    children: Seq<Markup>,
) -> Markup {
    Markup::Node { tag, attrs: seq![(name, value)], children }
}

/// The element `tag` with the style `style`, and `children`.
pub open spec fn styled(tag: Seq<char>, style: Seq<char>, children: Seq<Markup>) -> Markup {
    element(tag, "style"@, style, children)
}

/// What `children` look like to the contracts.
pub open spec fn markups(children: Seq<Html>) -> Seq<Markup> {
    Seq::new(
        children.len(),
        |i: int|
            if 0 <= i < children.len() {
                children[i].markup()
            } else {
                Markup::Text(Seq::empty())
            },
    )
}

/// Builds the element `tag` with the style `style`, and `children`.
pub fn styled_node(tag: &str, style: &str, children: Vec<Html>) -> (res: Html)
    ensures
        res.markup() == styled(tag@, style@, markups(children@)),
{
    let mut attrs: Vec<(String, String)> = Vec::new();
    attrs.push((String::from_str("style"), String::from_str(style)));
    let res = Html::Node { tag: String::from_str(tag), attrs, children };
    assert(attrs.deep_view() =~= seq![("style"@, style@)]);
    assert(res.markup()->children =~= markups(children@));
    res
}

/// Puts `children` side by side, without an element around them.
pub fn fragment(children: Vec<Html>) -> (res: Html)
    ensures
        res.markup() == Markup::Fragment(markups(children@)),
{
    let res = Html::Fragment(children);
    assert(res.markup()->Fragment_0 =~= markups(children@));
    res
}

/// Builds a list with one tree.
pub fn one(child: Html) -> (res: Vec<Html>)
    ensures
        res@ == seq![child],
        markups(res@) == seq![child.markup()],
{
    let mut res: Vec<Html> = Vec::new();
    res.push(child);
    assert(res@ =~= seq![child]);
    assert(markups(res@) =~= seq![child.markup()]);
    res
}

} // verus!
