//! The tree of tagged elements that a filing's markup is read into.

use crate::string_map::StringMap;
use vstd::prelude::*;

verus! {

/// The characters of an optional string.
pub open spec fn text_of(text: Option<String>) -> Option<Seq<char>> {
    match text {
        Some(s) => Some(s@),
        None => None,
    }
}

/// One tagged element and everything nested in it.
#[derive(Debug)]
pub struct XBRLElement {
    /// The qualified name as written in the markup, prefix included.
    pub name: String,
    /// The text inside the element, if it had any.
    pub value: Option<String>,
    /// The attributes other than the context and unit references and the
    /// declarations of namespace prefixes.
    pub attributes: StringMap,
    /// The elements nested directly inside, in document order.
    pub children: Vec<XBRLElement>,
    /// The context that the element's fact belongs to.
    pub context_ref: Option<String>,
    /// The unit in which the element's fact is measured.
    pub unit_ref: Option<String>,
}

/// What an [`XBRLElement`] holds, as mathematical values.
pub struct ElementModel {
    pub name: Seq<char>,
    pub value: Option<Seq<char>>,
    pub attributes: Map<Seq<char>, Seq<char>>,
    pub children: Seq<ElementModel>,
    pub context_ref: Option<Seq<char>>,
    pub unit_ref: Option<Seq<char>>,
}

/// The models of a sequence of elements.
pub open spec fn forest_view(elements: Seq<XBRLElement>) -> Seq<ElementModel>
    decreases elements,
{
    if elements.len() == 0 {
        Seq::empty()
    } else {
        forest_view(elements.drop_last()).push(elements.last()@)
    }
}

impl View for XBRLElement {
    type V = ElementModel;

    open spec fn view(&self) -> ElementModel
        decreases self,
    {
        ElementModel {
            name: self.name@,
            value: text_of(self.value),
            attributes: self.attributes@,
            children: forest_view(self.children@),
            context_ref: text_of(self.context_ref),
            unit_ref: text_of(self.unit_ref),
        }
    }
}

/// `forest_view` maps the elements one by one.
pub proof fn lemma_forest_view(elements: Seq<XBRLElement>)
    ensures
        forest_view(elements).len() == elements.len(),
        forall|i: int|
            0 <= i < elements.len() ==> forest_view(elements)[i] == #[trigger] elements[i]@,
    decreases elements.len(),
{
    if elements.len() > 0 {
        let front = elements.drop_last();
        lemma_forest_view(front);
        assert(forest_view(elements) == forest_view(front).push(elements.last()@));
        assert forall|i: int| 0 <= i < elements.len() implies forest_view(elements)[i]
            == #[trigger] elements[i]@ by {
            if i < front.len() {
                assert(front[i]@ == elements[i]@);
            }
        }
    }
}

/// Adding an element at the end adds its model at the end.
pub proof fn lemma_forest_view_push(elements: Seq<XBRLElement>, element: XBRLElement)
    ensures
        forest_view(elements.push(element)) == forest_view(elements).push(element@),
{
    assert(elements.push(element).drop_last() =~= elements);
}

/// Removing the last element removes the last model.
pub proof fn lemma_forest_view_drop_last(elements: Seq<XBRLElement>)
    requires
        elements.len() > 0,
    ensures
        forest_view(elements.drop_last()) == forest_view(elements).drop_last(),
        forest_view(elements).last() == elements.last()@,
        forest_view(elements).len() == elements.len(),
{
    lemma_forest_view(elements);
    assert(forest_view(elements) == forest_view(elements.drop_last()).push(elements.last()@));
    assert(forest_view(elements).drop_last() =~= forest_view(elements.drop_last()));
}

/// The element and all elements nested in it, each before what it contains
/// and siblings in document order.
pub open spec fn preorder(element: ElementModel) -> Seq<ElementModel>
    decreases element,
{
    seq![element] + preorder_forest(element.children)
}

/// The elements of a forest in document order.
pub open spec fn preorder_forest(forest: Seq<ElementModel>) -> Seq<ElementModel>
    decreases forest,
{
    if forest.len() == 0 {
        Seq::empty()
    } else {
        preorder_forest(forest.drop_last()) + preorder(forest.last())
    }
}

/// The number of elements in a forest, nested ones included.
pub open spec fn element_count(forest: Seq<ElementModel>) -> nat {
    preorder_forest(forest).len()
}

/// A parsed filing: its namespace declarations, its contexts, and its
/// top-level elements in document order.
#[derive(Debug)]
pub struct DynamicXBRLContent {
    /// Namespace prefix to namespace URI.
    pub namespaces: StringMap,
    /// Context identifier to what is known of the context.
    pub contexts: StringMap,
    /// The top-level elements.
    pub elements: Vec<XBRLElement>,
}

/// What a [`DynamicXBRLContent`] holds, as mathematical values.
pub struct DocumentModel {
    pub namespaces: Map<Seq<char>, Seq<char>>,
    pub contexts: Map<Seq<char>, Seq<char>>,
    pub elements: Seq<ElementModel>,
}

impl View for DynamicXBRLContent {
    type V = DocumentModel;

    open spec fn view(&self) -> DocumentModel {
        DocumentModel {
            namespaces: self.namespaces@,
            contexts: self.contexts@,
            elements: forest_view(self.elements@),
        }
    }
}

} // verus!
