//! The element tree produced by parsing, the document that owns it, and the
//! navigation bookkeeping types shared with the surrounding host.

use vstd::prelude::*;
use vstd::string::StringExecFns;

verus! {

/// A node in the source tree: a tag name, ordered attribute pairs, ordered
/// owned children, and optional text content.
#[derive(Debug)]
pub struct Element {
    /// Tag name.
    pub tag: String,
    /// Element attributes, in insertion order; duplicates are allowed.
    pub attributes: Vec<(String, String)>,
    /// Child elements, in document order.
    pub children: Vec<Element>,
    /// Text content, if this node carries any.
    pub text_content: Option<String>,
}

/// Attribute lists agree pairwise on names and values.
pub open spec fn attrs_like(a: Seq<(String, String)>, b: Seq<(String, String)>) -> bool {
    &&& a.len() == b.len()
    &&& forall|i: int|
        0 <= i < a.len() ==> (#[trigger] a[i]).0@ == b[i].0@ && a[i].1@ == b[i].1@
}

/// Optional text contents agree.
pub open spec fn text_like(a: Option<String>, b: Option<String>) -> bool {
    match (a, b) {
        (Some(x), Some(y)) => x@ == y@,
        (None, None) => true,
        _ => false,
    }
}

/// Deep structural equality of two element trees: same tag, attributes,
/// text, and recursively equal children in the same order.
pub open spec fn elem_like(a: Element, b: Element) -> bool
    decreases a,
{
    &&& a.tag@ == b.tag@
    &&& attrs_like(a.attributes@, b.attributes@)
    &&& text_like(a.text_content, b.text_content)
    &&& a.children@.len() == b.children@.len()
    &&& forall|i: int|
        0 <= i < a.children@.len() ==> elem_like(#[trigger] a.children@[i], b.children@[i])
}

/// Number of nodes in an element tree.
pub open spec fn esize(e: Element) -> nat
    decreases e, 1int,
{
    1 + esize_seq(e.children@)
}

/// Number of nodes in a forest of element trees.
pub open spec fn esize_seq(s: Seq<Element>) -> nat
    decreases s, 0int,
{
    if s.len() == 0 {
        0
    } else {
        esize(s[0]) + esize_seq(s.drop_first())
    }
}

/// The pre-order sequence of tag names of an element tree.
pub open spec fn pre_tags(e: Element) -> Seq<Seq<char>>
    decreases e, 1int,
{
    seq![e.tag@] + pre_tags_seq(e.children@)
}

/// The concatenated pre-order tag sequences of a forest.
pub open spec fn pre_tags_seq(s: Seq<Element>) -> Seq<Seq<char>>
    decreases s, 0int,
{
    if s.len() == 0 {
        Seq::empty()
    } else {
        pre_tags(s[0]) + pre_tags_seq(s.drop_first())
    }
}

impl Element {
    /// Create a new element with the given tag and nothing else.
    pub fn new(tag: &str) -> (e: Element)
        ensures
            e.tag@ == tag@,
            e.attributes@.len() == 0,
            e.children@.len() == 0,
            e.text_content is None,
    {
        Element {
            tag: String::from_str(tag),
            attributes: Vec::new(),
            children: Vec::new(),
            text_content: None,
        }
    }

    /// Append an attribute pair; earlier pairs are kept and keep their order.
    pub fn with_attribute(self, name: &str, value: &str) -> (e: Element)
        ensures
            e.tag == self.tag,
            e.children == self.children,
            e.text_content == self.text_content,
            e.attributes@.len() == self.attributes@.len() + 1,
            forall|i: int|
                0 <= i < self.attributes@.len() ==> e.attributes@[i] == self.attributes@[i],
            e.attributes@.last().0@ == name@,
            e.attributes@.last().1@ == value@,
    {
        let mut attributes = self.attributes;
        attributes.push((String::from_str(name), String::from_str(value)));
        Element { tag: self.tag, attributes, children: self.children, text_content: self.text_content }
    }

    /// Append a child element after the existing children.
    pub fn with_child(self, child: Element) -> (e: Element)
        ensures
            e.tag == self.tag,
            e.attributes == self.attributes,
            e.text_content == self.text_content,
            e.children@ == self.children@.push(child),
    {
        let mut children = self.children;
        children.push(child);
        Element { tag: self.tag, attributes: self.attributes, children, text_content: self.text_content }
    }

    /// Set the text content, replacing any previous text.
    pub fn with_text(self, text: &str) -> (e: Element)
        ensures
            e.tag == self.tag,
            e.attributes == self.attributes,
            e.children == self.children,
            e.text_content matches Some(t) && t@ == text@,
    {
        Element {
            tag: self.tag,
            attributes: self.attributes,
            children: self.children,
            text_content: Some(String::from_str(text)),
        }
    }
}

impl Clone for Element {
    /// A deep copy: the clone is structurally equal to the original.
    fn clone(&self) -> (res: Element)
        ensures
            elem_like(res, *self),
        decreases *self,
    {
        let tag = self.tag.clone();
        let mut attributes: Vec<(String, String)> = Vec::new();
        let mut i: usize = 0;
        while i < self.attributes.len()
            invariant
                i <= self.attributes@.len(),
                attributes@.len() == i,
                forall|k: int|
                    0 <= k < i ==> (#[trigger] attributes@[k]).0@ == self.attributes@[k].0@
                        && attributes@[k].1@ == self.attributes@[k].1@,
            decreases self.attributes@.len() - i,
        {
            let pair = (self.attributes[i].0.clone(), self.attributes[i].1.clone());
            attributes.push(pair);
            i = i + 1;
        }
        let mut children: Vec<Element> = Vec::new();
        let mut j: usize = 0;
        while j < self.children.len()
            invariant
                j <= self.children@.len(),
                children@.len() == j,
                forall|k: int|
                    0 <= k < j ==> elem_like(#[trigger] children@[k], self.children@[k]),
            decreases self.children@.len() - j,
        {
            let c = &self.children[j];
            proof {
                assert(decreases_to!(*self => self.children@[j as int]));
            }
            children.push(c.clone());
            j = j + 1;
        }
        let text_content = match &self.text_content {
            Some(t) => Some(t.clone()),
            None => None,
        };
        Element { tag, attributes, children, text_content }
    }
}

/// The product of a parse: the root element, the derived title, and the
/// source URL. A document is never mutated after creation.
#[derive(Debug, Clone)]
pub struct Document {
    /// Document title.
    pub title: String,
    /// Root element.
    pub root: Element,
    /// Document URL.
    pub url: String,
}

/// Navigation state of a tab: `Idle` until a navigation is requested, then
/// `Loading`, then `Loaded` on success or `Error` on failure.
#[derive(Debug, Clone, Copy, PartialEq, Eq, Structural)]
pub enum NavigationState {
    Idle,
    Loading,
    Loaded,
    Error,
}

impl Default for NavigationState {
    /// A tab with no navigation yet requested is idle.
    fn default() -> (s: NavigationState)
        ensures
            s == NavigationState::Idle,
    {
        NavigationState::Idle
    }
}

/// A browser tab owned by the surrounding host; the core only defines its
/// shape and the meaning of its navigation state.
#[derive(Debug, Clone)]
pub struct BrowserTab {
    /// Tab ID.
    pub id: u64,
    /// Current URL.
    pub url: String,
    /// Page title.
    pub title: String,
    /// Navigation state.
    pub navigation_state: NavigationState,
    /// Loaded document.
    pub document: Option<Document>,
}

} // verus!
