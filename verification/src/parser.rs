//! Building the element tree of a filing from the events of its markup.
//!
//! The tree is built in one pass over the events with an explicit stack of
//! the elements that are still open, so the depth of nesting is bounded by
//! memory alone.

use crate::error::{ParseFailure, StructuralFault};
use crate::events::{
    attribute_view, attributes_view, ends_reading, next_event, open_reader, pending_events,
    xml_events, AttributeModel, EventModel, RawAttribute, TokenModel, XmlEvent, XmlToken,
};
use crate::models::xbrl::{
    element_count, forest_view, lemma_forest_view, lemma_forest_view_drop_last,
    lemma_forest_view_push, preorder, preorder_forest, DocumentModel, DynamicXBRLContent,
    ElementModel, XBRLElement,
};
use crate::string_map::StringMap;
use crate::text::{starts_with, str_equal, str_from_utf8, strip_prefix};
use vstd::prelude::*;
use vstd::utf8::{decode_utf8, valid_utf8};

verus! {

/// The attribute that names the context of a fact.
pub open spec fn context_key() -> Seq<char> {
    "contextRef"@
}

/// The attribute that names the unit of a fact.
pub open spec fn unit_key() -> Seq<char> {
    "unitRef"@
}

/// What the key of a namespace declaration begins with; the prefix that it
/// declares follows.
pub open spec fn namespace_marker() -> Seq<char> {
    "xmlns:"@
}

/// The attribute was read whole and its key and value are text.
pub open spec fn readable_attribute(attribute: AttributeModel) -> bool {
    match attribute {
        Some((key, value)) => valid_utf8(key) && valid_utf8(value),
        None => false,
    }
}

/// The name of a start tag and all its attributes are text.
pub open spec fn readable_start(name: Seq<u8>, attributes: Seq<AttributeModel>) -> bool {
    valid_utf8(name) && forall|i: int|
        0 <= i < attributes.len() ==> readable_attribute(#[trigger] attributes[i])
}

/// An element with a name and nothing else.
pub open spec fn blank_element(name: Seq<char>) -> ElementModel {
    ElementModel {
        name,
        value: None,
        attributes: Map::empty(),
        children: Seq::empty(),
        context_ref: None,
        unit_ref: None,
    }
}

/// The element after one more attribute of its start tag: the context and
/// unit references go to their own fields, a declaration of a namespace
/// prefix leaves the element as it is, and every other attribute goes to the
/// attribute map.
pub open spec fn with_attribute(
    element: ElementModel,
    key: Seq<char>,
    value: Seq<char>,
) -> ElementModel {
    if key == context_key() {
        ElementModel { context_ref: Some(value), ..element }
    } else if key == unit_key() {
        ElementModel { unit_ref: Some(value), ..element }
    } else if starts_with(key, namespace_marker()) {
        element
    } else {
        ElementModel { attributes: element.attributes.insert(key, value), ..element }
    }
}

/// The namespaces after one more attribute: a key that begins with the
/// namespace marker binds the prefix that follows the marker.
pub open spec fn with_declaration(
    namespaces: Map<Seq<char>, Seq<char>>,
    key: Seq<char>,
    value: Seq<char>,
) -> Map<Seq<char>, Seq<char>> {
    if starts_with(key, namespace_marker()) {
        namespaces.insert(key.skip(namespace_marker().len() as int), value)
    } else {
        namespaces
    }
}

/// The element that a start tag opens, its attributes taken in the order
/// written.
pub open spec fn opened_element(name: Seq<u8>, attributes: Seq<AttributeModel>) -> ElementModel
    decreases attributes.len(),
{
    if attributes.len() == 0 {
        blank_element(decode_utf8(name))
    } else {
        match attributes.last() {
            Some((key, value)) => with_attribute(
                opened_element(name, attributes.drop_last()),
                decode_utf8(key),
                decode_utf8(value),
            ),
            None => opened_element(name, attributes.drop_last()),
        }
    }
}

/// The namespaces after the attributes of a start tag, taken in the order
/// written.
pub open spec fn declared_namespaces(
    namespaces: Map<Seq<char>, Seq<char>>,
    attributes: Seq<AttributeModel>,
) -> Map<Seq<char>, Seq<char>>
    decreases attributes.len(),
{
    if attributes.len() == 0 {
        namespaces
    } else {
        match attributes.last() {
            Some((key, value)) => with_declaration(
                declared_namespaces(namespaces, attributes.drop_last()),
                decode_utf8(key),
                decode_utf8(value),
            ),
            None => declared_namespaces(namespaces, attributes.drop_last()),
        }
    }
}

/// The state of building a tree: the namespaces declared so far, the
/// top-level elements that are complete, and the elements that are still
/// open, outermost first.
pub struct BuilderModel {
    pub namespaces: Map<Seq<char>, Seq<char>>,
    pub elements: Seq<ElementModel>,
    pub stack: Seq<ElementModel>,
}

/// What taking one event leads to.
pub enum ProgressModel {
    /// The tree is not complete.
    More(BuilderModel),
    /// The input has ended and the tree is complete.
    Finished(DocumentModel),
    /// The document cannot be read.
    Failed(ParseFailure),
}

/// The state before the first event.
pub open spec fn initial_state() -> BuilderModel {
    BuilderModel { namespaces: Map::empty(), elements: Seq::empty(), stack: Seq::empty() }
}

/// What the end of the input makes of a state: the document, where no element
/// is open.
pub open spec fn finished(state: BuilderModel) -> Result<DocumentModel, ParseFailure> {
    if state.stack.len() == 0 {
        Ok(
            DocumentModel {
                namespaces: state.namespaces,
                contexts: Map::empty(),
                elements: state.elements,
            },
        )
    } else {
        Err(ParseFailure::StructuralError { fault: StructuralFault::UnclosedElement })
    }
}

/// The state after the innermost open element is closed: it becomes the last
/// child of the element that encloses it, or the last top-level element.
pub open spec fn closed_innermost(state: BuilderModel) -> BuilderModel
    recommends
        state.stack.len() > 0,
{
    let closed = state.stack.last();
    let outer = state.stack.drop_last();
    if outer.len() == 0 {
        BuilderModel { elements: state.elements.push(closed), stack: outer, ..state }
    } else {
        let parent = outer.last();
        let grown = ElementModel { children: parent.children.push(closed), ..parent };
        BuilderModel { stack: outer.drop_last().push(grown), ..state }
    }
}

/// What one event makes of a state.
pub open spec fn step(state: BuilderModel, event: EventModel) -> ProgressModel {
    match event.token {
        TokenModel::Start { name, attributes } => {
            if readable_start(name, attributes) {
                ProgressModel::More(
                    BuilderModel {
                        namespaces: declared_namespaces(state.namespaces, attributes),
                        stack: state.stack.push(opened_element(name, attributes)),
                        ..state
                    },
                )
            } else {
                ProgressModel::Failed(ParseFailure::ParseError { position: event.position })
            }
        },
        TokenModel::Text { content } => {
            if state.stack.len() == 0 {
                ProgressModel::More(state)
            } else if valid_utf8(content) {
                let top = state.stack.last();
                let filled = ElementModel { value: Some(decode_utf8(content)), ..top };
                ProgressModel::More(
                    BuilderModel { stack: state.stack.drop_last().push(filled), ..state },
                )
            } else {
                ProgressModel::Failed(ParseFailure::ParseError { position: event.position })
            }
        },
        TokenModel::End => {
            if state.stack.len() == 0 {
                ProgressModel::Failed(
                    ParseFailure::StructuralError { fault: StructuralFault::UnmatchedEnd },
                )
            } else {
                ProgressModel::More(closed_innermost(state))
            }
        },
        TokenModel::Eof => match finished(state) {
            Ok(document) => ProgressModel::Finished(document),
            Err(failure) => ProgressModel::Failed(failure),
        },
        TokenModel::Other => ProgressModel::More(state),
        TokenModel::Malformed => ProgressModel::Failed(
            ParseFailure::ParseError { position: event.position },
        ),
    }
}

/// What a sequence of events makes of a state. Events after the end of the
/// input or after a failure are not looked at; a sequence that runs out
/// stands for an input that ends there.
pub open spec fn run(state: BuilderModel, events: Seq<EventModel>) -> Result<
    DocumentModel,
    ParseFailure,
>
    decreases events.len(),
{
    if events.len() == 0 {
        finished(state)
    } else {
        match step(state, events.first()) {
            ProgressModel::More(next) => run(next, events.drop_first()),
            ProgressModel::Finished(document) => Ok(document),
            ProgressModel::Failed(failure) => Err(failure),
        }
    }
}

/// The document that a sequence of events describes.
pub open spec fn document_of(events: Seq<EventModel>) -> Result<DocumentModel, ParseFailure> {
    run(initial_state(), events)
}

/// Reads the attributes of a start tag into a new element and into the
/// namespaces. Gives nothing where the name or an attribute is unreadable.
fn open_element(
    namespaces: &mut StringMap,
    name: &Vec<u8>,
    attributes: &Vec<RawAttribute>,
) -> (opened: Option<XBRLElement>)
    ensures
        match opened {
            Some(element) => {
                &&& readable_start(name@, attributes_view(attributes@))
                &&& element@ == opened_element(name@, attributes_view(attributes@))
                &&& final(namespaces)@ == declared_namespaces(
                    old(namespaces)@,
                    attributes_view(attributes@),
                )
            },
            None => !readable_start(name@, attributes_view(attributes@)),
        },
{
    let ghost models = attributes_view(attributes@);
    let ghost declared = namespaces@;
    let name_text = match str_from_utf8(name.as_slice()) {
        Some(text) => text,
        None => {
            return None;
        },
    };
    let mut element = XBRLElement {
        name: name_text.to_owned(),
        value: None,
        attributes: StringMap::new(),
        children: Vec::new(),
        context_ref: None,
        unit_ref: None,
    };
    assert(element@ == blank_element(decode_utf8(name@))) by {
        assert(forest_view(element.children@) =~= Seq::<ElementModel>::empty());
    }
    assert(models.take(0) =~= Seq::<AttributeModel>::empty());
    let mut i: usize = 0;
    while i < attributes.len()
        invariant
            i <= attributes@.len(),
            models == attributes_view(attributes@),
            valid_utf8(name@),
            forall|j: int| 0 <= j < i ==> readable_attribute(#[trigger] models[j]),
            element@ == opened_element(name@, models.take(i as int)),
            namespaces@ == declared_namespaces(declared, models.take(i as int)),
        decreases attributes@.len() - i,
    {
        let ghost before = element@;
        proof {
            assert(models.take(i + 1).drop_last() =~= models.take(i as int));
            assert(models.take(i + 1).last() == models[i as int]);
            assert(models[i as int] == attribute_view(attributes@[i as int]));
        }
        match &attributes[i] {
            None => {
                assert(!readable_attribute(models[i as int]));
                return None;
            },
            Some((key_bytes, value_bytes)) => {
                let key = match str_from_utf8(key_bytes.as_slice()) {
                    Some(text) => text,
                    None => {
                        assert(!readable_attribute(models[i as int]));
                        return None;
                    },
                };
                let value = match str_from_utf8(value_bytes.as_slice()) {
                    Some(text) => text,
                    None => {
                        assert(!readable_attribute(models[i as int]));
                        return None;
                    },
                };
                assert(readable_attribute(models[i as int]));
                proof {
                    reveal_strlit("contextRef");
                    reveal_strlit("unitRef");
                    reveal_strlit("xmlns:");
                    if key@ == context_key() || key@ == unit_key() {
                        assert(key@[0] != namespace_marker()[0]);
                        assert(key@.subrange(0, 6)[0] == key@[0]);
                        assert(!starts_with(key@, namespace_marker()));
                    }
                }
                if str_equal(key, "contextRef") {
                    element.context_ref = Some(value.to_owned());
                } else if str_equal(key, "unitRef") {
                    element.unit_ref = Some(value.to_owned());
                } else {
                    match strip_prefix(key, "xmlns:") {
                        Some(prefix) => {
                            namespaces.insert(prefix.to_owned(), value.to_owned());
                        },
                        None => {
                            element.attributes.insert(key.to_owned(), value.to_owned());
                        },
                    }
                }
                assert(element@ == with_attribute(before, key@, value@));
            },
        }
        i += 1;
    }
    assert(models.take(i as int) =~= models);
    Some(element)
}

/// A tree under construction.
pub struct TreeBuilder {
    namespaces: StringMap,
    elements: Vec<XBRLElement>,
    stack: Vec<XBRLElement>,
}

impl View for TreeBuilder {
    type V = BuilderModel;

    closed spec fn view(&self) -> BuilderModel {
        BuilderModel {
            namespaces: self.namespaces@,
            elements: forest_view(self.elements@),
            stack: forest_view(self.stack@),
        }
    }
}

/// What a [`TreeBuilder`] has come to after an event.
pub enum Progress {
    /// The tree is not complete: the builder takes the next event.
    More(TreeBuilder),
    /// The input has ended and the tree is complete.
    Finished(DynamicXBRLContent),
    /// The document cannot be read.
    Failed(ParseFailure),
}

impl View for Progress {
    type V = ProgressModel;

    open spec fn view(&self) -> ProgressModel {
        match *self {
            Progress::More(builder) => ProgressModel::More(builder@),
            Progress::Finished(document) => ProgressModel::Finished(document@),
            Progress::Failed(failure) => ProgressModel::Failed(failure),
        }
    }
}

impl TreeBuilder {
    /// A builder that has seen no event.
    pub fn new() -> (builder: TreeBuilder)
        ensures
            builder@ == initial_state(),
    {
        let builder = TreeBuilder {
            namespaces: StringMap::new(),
            elements: Vec::new(),
            stack: Vec::new(),
        };
        assert(forest_view(builder.elements@) =~= Seq::<ElementModel>::empty());
        builder
    }

    /// Ends the input: gives the document, where no element is open.
    pub fn finish(self) -> (outcome: Result<DynamicXBRLContent, ParseFailure>)
        ensures
            match outcome {
                Ok(document) => finished(self@) == Ok::<DocumentModel, ParseFailure>(document@),
                Err(failure) => finished(self@) == Err::<DocumentModel, ParseFailure>(failure),
            },
    {
        proof {
            lemma_forest_view(self.stack@);
        }
        if self.stack.len() == 0 {
            Ok(
                DynamicXBRLContent {
                    namespaces: self.namespaces,
                    contexts: StringMap::new(),
                    elements: self.elements,
                },
            )
        } else {
            Err(ParseFailure::StructuralError { fault: StructuralFault::UnclosedElement })
        }
    }

    /// Closes the innermost open element.
    fn close_innermost(self) -> (builder: TreeBuilder)
        requires
            self@.stack.len() > 0,
        ensures
            builder@ == closed_innermost(self@),
    {
        let mut builder = self;
        let ghost stack = builder.stack@;
        proof {
            lemma_forest_view(stack);
        }
        let closed = builder.stack.pop().unwrap();
        proof {
            assert(builder.stack@ =~= stack.drop_last());
            lemma_forest_view_drop_last(stack);
        }
        if builder.stack.len() == 0 {
            proof {
                lemma_forest_view_push(builder.elements@, closed);
            }
            builder.elements.push(closed);
        } else {
            let ghost outer = builder.stack@;
            let mut parent = builder.stack.pop().unwrap();
            proof {
                assert(builder.stack@ =~= outer.drop_last());
                lemma_forest_view_drop_last(outer);
                lemma_forest_view_push(parent.children@, closed);
            }
            parent.children.push(closed);
            proof {
                lemma_forest_view_push(builder.stack@, parent);
            }
            builder.stack.push(parent);
        }
        builder
    }

    /// Takes one event.
    pub fn accept(self, event: &XmlEvent) -> (progress: Progress)
        ensures
            progress@ == step(self@, event@),
    {
        let mut builder = self;
        let position = event.position;
        proof {
            lemma_forest_view(builder.stack@);
        }
        match &event.token {
            XmlToken::Start { name, attributes } => {
                match open_element(&mut builder.namespaces, name, attributes) {
                    Some(element) => {
                        proof {
                            lemma_forest_view_push(builder.stack@, element);
                        }
                        builder.stack.push(element);
                        Progress::More(builder)
                    },
                    None => Progress::Failed(ParseFailure::ParseError { position }),
                }
            },
            XmlToken::Text { content } => {
                if builder.stack.len() == 0 {
                    Progress::More(builder)
                } else {
                    match str_from_utf8(content.as_slice()) {
                        Some(text) => {
                            let ghost stack = builder.stack@;
                            let mut top = builder.stack.pop().unwrap();
                            proof {
                                assert(builder.stack@ =~= stack.drop_last());
                                lemma_forest_view_drop_last(stack);
                            }
                            top.value = Some(text.to_owned());
                            proof {
                                lemma_forest_view_push(builder.stack@, top);
                            }
                            builder.stack.push(top);
                            Progress::More(builder)
                        },
                        None => Progress::Failed(ParseFailure::ParseError { position }),
                    }
                }
            },
            XmlToken::End => {
                if builder.stack.len() == 0 {
                    Progress::Failed(
                        ParseFailure::StructuralError { fault: StructuralFault::UnmatchedEnd },
                    )
                } else {
                    Progress::More(builder.close_innermost())
                }
            },
            XmlToken::Eof => match builder.finish() {
                Ok(document) => Progress::Finished(document),
                Err(failure) => Progress::Failed(failure),
            },
            XmlToken::Other => Progress::More(builder),
            XmlToken::Malformed => Progress::Failed(ParseFailure::ParseError { position }),
        }
    }
}

/// The events of a sequence, as mathematical values.
pub open spec fn events_view(events: Seq<XmlEvent>) -> Seq<EventModel> {
    events.map_values(|e: XmlEvent| e@)
}

/// The number of start events among the events that come before the first
/// end of input.
pub open spec fn start_count(events: Seq<EventModel>) -> nat
    decreases events.len(),
{
    if events.len() == 0 || events.first().token is Eof {
        0
    } else if events.first().token is Start {
        1 + start_count(events.drop_first())
    } else {
        start_count(events.drop_first())
    }
}

/// An element that a start tag opens has no children.
pub proof fn lemma_opened_element_is_leaf(name: Seq<u8>, attributes: Seq<AttributeModel>)
    ensures
        opened_element(name, attributes).children == Seq::<ElementModel>::empty(),
    decreases attributes.len(),
{
    if attributes.len() > 0 {
        lemma_opened_element_is_leaf(name, attributes.drop_last());
    }
}

/// Adding an element at the end of a forest adds the element and what is
/// nested in it at the end of the forest's elements.
pub proof fn lemma_preorder_push(forest: Seq<ElementModel>, element: ElementModel)
    ensures
        preorder_forest(forest.push(element)) == preorder_forest(forest) + preorder(element),
        element_count(forest.push(element)) == element_count(forest) + 1 + element_count(
            element.children,
        ),
{
    assert(forest.push(element).drop_last() =~= forest);
}

/// Taking the last element off a forest takes the element and what is nested
/// in it off the forest's elements.
pub proof fn lemma_preorder_drop_last(forest: Seq<ElementModel>)
    requires
        forest.len() > 0,
    ensures
        preorder_forest(forest) == preorder_forest(forest.drop_last()) + preorder(forest.last()),
        element_count(forest) == element_count(forest.drop_last()) + 1 + element_count(
            forest.last().children,
        ),
{
    assert(preorder(forest.last()) == seq![forest.last()] + preorder_forest(
        forest.last().children,
    ));
}

/// Every start tag that is read before the end of the input adds one element
/// to what the state holds, and no other event adds or removes one.
proof fn lemma_run_counts(state: BuilderModel, events: Seq<EventModel>)
    ensures
        match run(state, events) {
            Ok(document) => element_count(document.elements) == element_count(state.elements)
                + element_count(state.stack) + start_count(events),
            Err(_) => true,
        },
    decreases events.len(),
{
    if events.len() == 0 {
    } else {
        let event = events.first();
        match step(state, event) {
            ProgressModel::More(next) => {
                lemma_run_counts(next, events.drop_first());
                assert(element_count(next.elements) + element_count(next.stack) == element_count(
                    state.elements,
                ) + element_count(state.stack) + if event.token is Start {
                    1nat
                } else {
                    0nat
                }) by {
                    match event.token {
                        TokenModel::Start { name, attributes } => {
                            lemma_opened_element_is_leaf(name, attributes);
                            lemma_preorder_push(state.stack, opened_element(name, attributes));
                        },
                        TokenModel::Text { content } => {
                            if state.stack.len() > 0 {
                                let top = state.stack.last();
                                let filled = ElementModel {
                                    value: Some(decode_utf8(content)),
                                    ..top
                                };
                                lemma_preorder_drop_last(state.stack);
                                lemma_preorder_push(state.stack.drop_last(), filled);
                            }
                        },
                        TokenModel::End => {
                            let closed = state.stack.last();
                            let outer = state.stack.drop_last();
                            lemma_preorder_drop_last(state.stack);
                            if outer.len() == 0 {
                                lemma_preorder_push(state.elements, closed);
                            } else {
                                let parent = outer.last();
                                let grown = ElementModel {
                                    children: parent.children.push(closed),
                                    ..parent
                                };
                                lemma_preorder_drop_last(outer);
                                lemma_preorder_push(parent.children, closed);
                                lemma_preorder_push(outer.drop_last(), grown);
                            }
                        },
                        _ => {},
                    }
                }
            },
            _ => {},
        }
    }
}

/// A document that is read without failure holds exactly as many elements,
/// nested ones included, as its input has start events.
pub proof fn lemma_every_start_tag_is_one_element(events: Seq<EventModel>)
    ensures
        match document_of(events) {
            Ok(document) => element_count(document.elements) == start_count(events),
            Err(_) => true,
        },
{
    lemma_run_counts(initial_state(), events);
}

/// Builds the document that a sequence of events describes.
///
/// Events after the end of the input are not looked at, and a sequence that
/// runs out stands for an input that ends there. The document holds one
/// element for each start event.
pub fn document_from_events(events: &Vec<XmlEvent>) -> (outcome: Result<
    DynamicXBRLContent,
    ParseFailure,
>)
    ensures
        match outcome {
            Ok(document) => document_of(events_view(events@)) == Ok::<
                DocumentModel,
                ParseFailure,
            >(document@) && element_count(document@.elements) == start_count(
                events_view(events@),
            ),
            Err(failure) => document_of(events_view(events@)) == Err::<
                DocumentModel,
                ParseFailure,
            >(failure),
        },
{
    let ghost models = events_view(events@);
    let mut builder = TreeBuilder::new();
    let mut i: usize = 0;
    assert(models.skip(0) =~= models);
    while i < events.len()
        invariant
            i <= events@.len(),
            models == events_view(events@),
            document_of(models) == run(builder@, models.skip(i as int)),
        decreases events@.len() - i,
    {
        proof {
            assert(models.skip(i as int).first() == events@[i as int]@);
            assert(models.skip(i as int).drop_first() =~= models.skip(i + 1));
        }
        match builder.accept(&events[i]) {
            Progress::More(next) => {
                builder = next;
            },
            Progress::Finished(document) => {
                proof {
                    lemma_every_start_tag_is_one_element(models);
                }
                return Ok(document);
            },
            Progress::Failed(failure) => {
                return Err(failure);
            },
        }
        i += 1;
    }
    proof {
        lemma_every_start_tag_is_one_element(models);
    }
    builder.finish()
}

/// Reads the markup of a filing into its tree of elements.
///
/// The outcome is what the events of the markup describe: the document, or
/// the first failure. A document that is returned holds one element for each
/// start event of the markup, that is for each start tag and each
/// self-closing tag.
pub fn parse_dynamic_xbrl(content: &str) -> (outcome: Result<DynamicXBRLContent, ParseFailure>)
    ensures
        match outcome {
            Ok(document) => document_of(xml_events(content@)) == Ok::<
                DocumentModel,
                ParseFailure,
            >(document@) && element_count(document@.elements) == start_count(
                xml_events(content@),
            ),
            Err(failure) => document_of(xml_events(content@)) == Err::<
                DocumentModel,
                ParseFailure,
            >(failure),
        },
{
    let mut reader = open_reader(content);
    let mut builder = TreeBuilder::new();
    loop
        invariant
            ends_reading(pending_events(reader)),
            document_of(xml_events(content@)) == run(builder@, pending_events(reader)),
        decreases pending_events(reader).len(),
    {
        let ghost pending = pending_events(reader);
        let event = next_event(&mut reader);
        match builder.accept(&event) {
            Progress::More(next) => {
                builder = next;
                assert(!event@.token.is_last());
                assert(pending.len() > 1);
                assert(pending.drop_first().last() == pending.last());
            },
            Progress::Finished(document) => {
                proof {
                    lemma_every_start_tag_is_one_element(xml_events(content@));
                }
                return Ok(document);
            },
            Progress::Failed(failure) => {
                return Err(failure);
            },
        }
    }
}

} // verus!
