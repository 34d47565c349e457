//! Resolving the facts of a statement from the element tree of a filing.
//!
//! Every element of the tree is visited, each before what is nested in it and
//! siblings in document order. An element states a fact where its context is
//! the one asked for, its name has an entry in the mapping table, and its text
//! is a number; every other element is passed over in silence. Where several
//! elements state a fact for one field, the last of them in document order
//! gives the field its value.

use crate::mapping::{
    balance_entries, balance_mapping, field_of, income_entries, income_mapping, MappingTable,
    BALANCE_CONTEXT, INCOME_CONTEXT,
};
use crate::models::financial_statements::{
    BalanceField, BalanceSheet, IncomeField, IncomeStatement, StatementRecord,
};
use crate::models::xbrl::{
    forest_view, lemma_forest_view, preorder, preorder_forest, DynamicXBRLContent, ElementModel,
    XBRLElement,
};
use crate::numeric::{is_number, is_number_text};
use crate::text::str_equal;
use vstd::prelude::*;

verus! {

/// The element states a fact for `field`.
pub open spec fn states<F>(
    element: ElementModel,
    qualifier: Seq<char>,
    table: Seq<(Seq<char>, F)>,
    field: F,
) -> bool {
    &&& element.context_ref == Some(qualifier)
    &&& match element.value {
        Some(text) => is_number_text(text),
        None => false,
    }
    &&& field_of(table, element.name) == Some(field)
}

/// The value of `field` after the elements, taken in the order given: the
/// text of the last element that states a fact for the field.
pub open spec fn resolved<F>(
    elements: Seq<ElementModel>,
    qualifier: Seq<char>,
    table: Seq<(Seq<char>, F)>,
    field: F,
) -> Option<Seq<char>>
    decreases elements.len(),
{
    if elements.len() == 0 {
        None
    } else if states(elements.last(), qualifier, table, field) {
        elements.last().value
    } else {
        resolved(elements.drop_last(), qualifier, table, field)
    }
}

/// The elements that a stack of subtrees has yet to give, the top of the
/// stack first.
pub open spec fn upcoming(stack: Seq<&XBRLElement>) -> Seq<ElementModel>
    decreases stack.len(),
{
    if stack.len() == 0 {
        Seq::empty()
    } else {
        preorder(stack.last()@) + upcoming(stack.drop_last())
    }
}

/// The elements of a forest begin with its first tree.
pub proof fn lemma_preorder_front(forest: Seq<ElementModel>)
    requires
        forest.len() > 0,
    ensures
        preorder_forest(forest) == preorder(forest.first()) + preorder_forest(
            forest.drop_first(),
        ),
    decreases forest.len(),
{
    if forest.len() == 1 {
        assert(forest.drop_last() =~= Seq::<ElementModel>::empty());
        assert(forest.drop_first() =~= Seq::<ElementModel>::empty());
        assert(forest.last() == forest.first());
        assert(preorder_forest(forest.drop_last()) =~= Seq::<ElementModel>::empty());
        assert(preorder_forest(forest.drop_first()) =~= Seq::<ElementModel>::empty());
        assert(preorder_forest(forest) =~= preorder(forest.first()));
        assert(preorder(forest.first()) + preorder_forest(forest.drop_first()) =~= preorder(
            forest.first(),
        ));
    } else {
        let front = forest.drop_last();
        lemma_preorder_front(front);
        assert(forest.drop_first().drop_last() =~= front.drop_first());
        assert(forest.drop_first().last() == forest.last());
        assert(front.first() == forest.first());
        assert(preorder_forest(forest) =~= preorder(forest.first()) + (preorder_forest(
            front.drop_first(),
        ) + preorder(forest.last())));
    }
}

/// Puts the trees of a forest on the stack, the first tree on top.
fn push_forest<'a>(stack: &mut Vec<&'a XBRLElement>, forest: &'a Vec<XBRLElement>)
    ensures
        upcoming(final(stack)@) == preorder_forest(forest_view(forest@)) + upcoming(old(stack)@),
{
    let ghost models = forest_view(forest@);
    let ghost below = upcoming(stack@);
    let n = forest.len();
    let mut j: usize = n;
    proof {
        lemma_forest_view(forest@);
        assert(models.subrange(n as int, n as int) =~= Seq::<ElementModel>::empty());
        assert(preorder_forest(models.subrange(n as int, n as int)) + below =~= below);
    }
    while j > 0
        invariant
            j <= n,
            n == forest@.len(),
            models == forest_view(forest@),
            models.len() == n,
            forall|i: int| 0 <= i < n ==> models[i] == #[trigger] forest@[i]@,
            upcoming(stack@) == preorder_forest(models.subrange(j as int, n as int)) + below,
        decreases j,
    {
        j -= 1;
        let ghost under = stack@;
        stack.push(&forest[j]);
        proof {
            let grown = models.subrange(j as int, n as int);
            assert(stack@.drop_last() =~= under);
            assert(stack@.last()@ == models[j as int]);
            lemma_preorder_front(grown);
            assert(grown.first() == models[j as int]);
            assert(grown.drop_first() =~= models.subrange(j + 1, n as int));
            assert(upcoming(stack@) =~= preorder_forest(grown) + below);
        }
    }
    assert(models.subrange(0, n as int) =~= models);
}

/// A walk over the elements of a forest, each element before what is nested
/// in it and siblings in document order.
///
/// The walk keeps the subtrees that it has yet to enter on a stack of its
/// own.
pub struct PreorderWalk<'a> {
    stack: Vec<&'a XBRLElement>,
}

impl<'a> PreorderWalk<'a> {
    /// The elements that the walk has yet to give, in the order in which it
    /// gives them.
    pub closed spec fn remaining(&self) -> Seq<ElementModel> {
        upcoming(self.stack@)
    }

    /// A walk over all elements of a forest.
    pub fn new(roots: &'a Vec<XBRLElement>) -> (walk: PreorderWalk<'a>)
        ensures
            walk.remaining() == preorder_forest(forest_view(roots@)),
    {
        let mut stack: Vec<&'a XBRLElement> = Vec::new();
        push_forest(&mut stack, roots);
        assert(upcoming(stack@) =~= preorder_forest(forest_view(roots@)));
        PreorderWalk { stack }
    }

    /// Gives the next element, or nothing when every element has been given.
    pub fn next(&mut self) -> (element: Option<&'a XBRLElement>)
        ensures
            match element {
                Some(e) => old(self).remaining().len() > 0 && e@ == old(self).remaining().first()
                    && final(self).remaining() == old(self).remaining().drop_first(),
                None => old(self).remaining().len() == 0 && final(self).remaining().len() == 0,
            },
    {
        let ghost before = self.stack@;
        match self.stack.pop() {
            None => None,
            Some(element) => {
                proof {
                    assert(self.stack@ =~= before.drop_last());
                    assert(preorder(element@) == seq![element@] + preorder_forest(
                        element@.children,
                    ));
                }
                push_forest(&mut self.stack, &element.children);
                proof {
                    assert(upcoming(self.stack@) =~= upcoming(before).drop_first());
                }
                Some(element)
            },
        }
    }
}

/// The fact that an element states, if it states one: the field and the text
/// of the number.
pub fn stated_fact<'a, F: Copy>(
    element: &'a XBRLElement,
    qualifier: &str,
    table: &MappingTable<F>,
) -> (fact: Option<(F, &'a String)>)
    ensures
        match fact {
            Some((field, text)) => states(element@, qualifier@, table@, field) && element@.value
                == Some(text@),
            None => forall|field: F| !states(element@, qualifier@, table@, field),
        },
{
    let context = match &element.context_ref {
        Some(context) => context,
        None => {
            return None;
        },
    };
    if !str_equal(context.as_str(), qualifier) {
        return None;
    }
    let text = match &element.value {
        Some(text) => text,
        None => {
            return None;
        },
    };
    if !is_number(text.as_str()) {
        return None;
    }
    match table.lookup(element.name.as_str()) {
        Some(field) => Some((field, text)),
        None => None,
    }
}

/// Resolves the facts of one statement.
///
/// Each field holds the text of the last element in document order that
/// states a fact for it, and nothing where no element does.
pub fn resolve_statement<R: StatementRecord>(
    document: &DynamicXBRLContent,
    qualifier: &str,
    table: &MappingTable<R::Field>,
) -> (record: R)
    ensures
        forall|field: R::Field|
            #[trigger] record.held(field) == resolved(
                preorder_forest(document@.elements),
                qualifier@,
                table@,
                field,
            ),
        forall|field: R::Field|
            match #[trigger] record.held(field) {
                Some(text) => is_number_text(text),
                None => true,
            },
        document@.elements.len() == 0 ==> forall|field: R::Field|
            (#[trigger] record.held(field)) is None,
{
    let ghost all = preorder_forest(document@.elements);
    let mut record = R::blank();
    let mut walk = PreorderWalk::new(&document.elements);
    let ghost mut seen: int = 0;
    proof {
        assert(all.skip(0) =~= all);
        assert(all.take(0) =~= Seq::<ElementModel>::empty());
    }
    loop
        invariant
            0 <= seen <= all.len(),
            walk.remaining() == all.skip(seen),
            forall|field: R::Field|
                #[trigger] record.held(field) == resolved(
                    all.take(seen),
                    qualifier@,
                    table@,
                    field,
                ),
        ensures
            seen == all.len(),
        decreases walk.remaining().len(),
    {
        match walk.next() {
            None => {
                break ;
            },
            Some(element) => {
                proof {
                    assert(all.skip(seen).first() == all[seen]);
                    assert(all.skip(seen).drop_first() =~= all.skip(seen + 1));
                    assert(all.take(seen + 1).drop_last() =~= all.take(seen));
                    assert(all.take(seen + 1).last() == all[seen]);
                }
                match stated_fact(element, qualifier, table) {
                    Some((field, text)) => {
                        record.fill(field, text.clone());
                    },
                    None => {},
                }
                proof {
                    seen = seen + 1;
                }
            },
        }
    }
    proof {
        assert(all.take(seen) =~= all);
        assert forall|field: R::Field|
            match #[trigger] record.held(field) {
                Some(text) => is_number_text(text),
                None => true,
            } by {
            lemma_resolved_is_number(all, qualifier@, table@, field);
        }
    }
    record
}

/// Resolves the facts of an income statement.
///
/// Each field holds the text of the last element in document order that
/// states a fact for it, and nothing where no element does.
pub fn resolve_income_statement(
    document: &DynamicXBRLContent,
    qualifier: &str,
    table: &MappingTable<IncomeField>,
) -> (statement: IncomeStatement)
    ensures
        forall|field: IncomeField|
            statement.field(field) == resolved(
                preorder_forest(document@.elements),
                qualifier@,
                table@,
                field,
            ),
        forall|field: IncomeField|
            match #[trigger] statement.field(field) {
                Some(text) => is_number_text(text),
                None => true,
            },
        document@.elements.len() == 0 ==> statement.all_absent(),
{
    let statement: IncomeStatement = resolve_statement(document, qualifier, table);
    assert forall|field: IncomeField| #[trigger]
        statement.field(field) == statement.held(field) by {}
    statement
}

/// Resolves the facts of a balance sheet.
///
/// Each field holds the text of the last element in document order that
/// states a fact for it, and nothing where no element does.
pub fn resolve_balance_sheet(
    document: &DynamicXBRLContent,
    qualifier: &str,
    table: &MappingTable<BalanceField>,
) -> (sheet: BalanceSheet)
    ensures
        forall|field: BalanceField|
            sheet.field(field) == resolved(
                preorder_forest(document@.elements),
                qualifier@,
                table@,
                field,
            ),
        forall|field: BalanceField|
            match #[trigger] sheet.field(field) {
                Some(text) => is_number_text(text),
                None => true,
            },
        document@.elements.len() == 0 ==> sheet.all_absent(),
{
    let sheet: BalanceSheet = resolve_statement(document, qualifier, table);
    assert forall|field: BalanceField| #[trigger] sheet.field(field) == sheet.held(field) by {}
    sheet
}

/// The income statement of a filing: the facts of the year to date under the
/// tags of the income table.
pub fn extract_income_statement(xbrl: &DynamicXBRLContent) -> (statement: IncomeStatement)
    ensures
        forall|field: IncomeField|
            statement.field(field) == resolved(
                preorder_forest(xbrl@.elements),
                INCOME_CONTEXT@,
                income_entries(),
                field,
            ),
        forall|field: IncomeField|
            match #[trigger] statement.field(field) {
                Some(text) => is_number_text(text),
                None => true,
            },
        xbrl@.elements.len() == 0 ==> statement.all_absent(),
{
    let table = income_mapping();
    resolve_income_statement(xbrl, INCOME_CONTEXT, &table)
}

/// The balance sheet of a filing: the facts of the end of the quarter under
/// the tags of the balance table.
pub fn extract_balance_sheet(xbrl: &DynamicXBRLContent) -> (sheet: BalanceSheet)
    ensures
        forall|field: BalanceField|
            sheet.field(field) == resolved(
                preorder_forest(xbrl@.elements),
                BALANCE_CONTEXT@,
                balance_entries(),
                field,
            ),
        forall|field: BalanceField|
            match #[trigger] sheet.field(field) {
                Some(text) => is_number_text(text),
                None => true,
            },
        xbrl@.elements.len() == 0 ==> sheet.all_absent(),
{
    let table = balance_mapping();
    resolve_balance_sheet(xbrl, BALANCE_CONTEXT, &table)
}

/// A field that is filled holds the text of a number.
pub proof fn lemma_resolved_is_number<F>(
    elements: Seq<ElementModel>,
    qualifier: Seq<char>,
    table: Seq<(Seq<char>, F)>,
    field: F,
)
    ensures
        match resolved(elements, qualifier, table, field) {
            Some(text) => is_number_text(text),
            None => true,
        },
    decreases elements.len(),
{
    if elements.len() > 0 && !states(elements.last(), qualifier, table, field) {
        lemma_resolved_is_number(elements.drop_last(), qualifier, table, field);
    }
}

/// An element that states no fact for a field can be taken out without a
/// change to the field.
pub proof fn lemma_silent_element<F>(
    elements: Seq<ElementModel>,
    at: int,
    qualifier: Seq<char>,
    table: Seq<(Seq<char>, F)>,
    field: F,
)
    requires
        0 <= at < elements.len(),
        !states(elements[at], qualifier, table, field),
    ensures
        resolved(elements.remove(at), qualifier, table, field) == resolved(
            elements,
            qualifier,
            table,
            field,
        ),
    decreases elements.len(),
{
    if at == elements.len() - 1 {
        assert(elements.remove(at) =~= elements.drop_last());
    } else {
        let shorter = elements.remove(at);
        assert(shorter.last() == elements.last());
        assert(shorter.drop_last() =~= elements.drop_last().remove(at));
        lemma_silent_element(elements.drop_last(), at, qualifier, table, field);
    }
}

/// No field takes anything from an element whose context is not the one
/// asked for: without the element every field resolves to the same value.
pub proof fn lemma_other_context_fills_nothing<F>(
    elements: Seq<ElementModel>,
    at: int,
    qualifier: Seq<char>,
    table: Seq<(Seq<char>, F)>,
)
    requires
        0 <= at < elements.len(),
        elements[at].context_ref != Some(qualifier),
    ensures
        forall|field: F|
            resolved(elements.remove(at), qualifier, table, field) == resolved(
                elements,
                qualifier,
                table,
                field,
            ),
{
    assert forall|field: F|
        resolved(elements.remove(at), qualifier, table, field) == resolved(
            elements,
            qualifier,
            table,
            field,
        ) by {
        lemma_silent_element(elements, at, qualifier, table, field);
    }
}

/// No field takes anything from an element whose name the table does not
/// hold, whatever the element's context: without the element every field
/// resolves to the same value.
pub proof fn lemma_unmapped_name_fills_nothing<F>(
    elements: Seq<ElementModel>,
    at: int,
    qualifier: Seq<char>,
    table: Seq<(Seq<char>, F)>,
)
    requires
        0 <= at < elements.len(),
        field_of(table, elements[at].name) is None,
    ensures
        forall|field: F|
            resolved(elements.remove(at), qualifier, table, field) == resolved(
                elements,
                qualifier,
                table,
                field,
            ),
{
    assert forall|field: F|
        resolved(elements.remove(at), qualifier, table, field) == resolved(
            elements,
            qualifier,
            table,
            field,
        ) by {
        lemma_silent_element(elements, at, qualifier, table, field);
    }
}

/// No field takes anything from an element whose text is missing or is not a
/// number: without the element every field resolves to the same value.
pub proof fn lemma_unreadable_text_fills_nothing<F>(
    elements: Seq<ElementModel>,
    at: int,
    qualifier: Seq<char>,
    table: Seq<(Seq<char>, F)>,
)
    requires
        0 <= at < elements.len(),
        match elements[at].value {
            Some(text) => !is_number_text(text),
            None => true,
        },
    ensures
        forall|field: F|
            resolved(elements.remove(at), qualifier, table, field) == resolved(
                elements,
                qualifier,
                table,
                field,
            ),
{
    assert forall|field: F|
        resolved(elements.remove(at), qualifier, table, field) == resolved(
            elements,
            qualifier,
            table,
            field,
        ) by {
        lemma_silent_element(elements, at, qualifier, table, field);
    }
}

/// Where an element states a fact for a field and no later element does, the
/// field has the element's text.
pub proof fn lemma_last_statement_wins<F>(
    elements: Seq<ElementModel>,
    at: int,
    qualifier: Seq<char>,
    table: Seq<(Seq<char>, F)>,
    field: F,
)
    requires
        0 <= at < elements.len(),
        states(elements[at], qualifier, table, field),
        forall|later: int|
            at < later < elements.len() ==> !states(
                #[trigger] elements[later],
                qualifier,
                table,
                field,
            ),
    ensures
        resolved(elements, qualifier, table, field) == elements[at].value,
    decreases elements.len(),
{
    if at < elements.len() - 1 {
        assert(!states(elements[elements.len() - 1], qualifier, table, field));
        let front = elements.drop_last();
        assert forall|later: int| at < later < front.len() implies !states(
            #[trigger] front[later],
            qualifier,
            table,
            field,
        ) by {
            assert(front[later] == elements[later]);
        }
        lemma_last_statement_wins(front, at, qualifier, table, field);
    }
}

/// Of two elements of one name that the table holds, both in the context
/// asked for, the later one gives the field its value, where its text is a
/// number and no element after it states a fact for the field.
pub proof fn lemma_later_of_two_wins<F>(
    elements: Seq<ElementModel>,
    earlier: int,
    later: int,
    qualifier: Seq<char>,
    table: Seq<(Seq<char>, F)>,
    field: F,
)
    requires
        0 <= earlier < later < elements.len(),
        elements[earlier].name == elements[later].name,
        field_of(table, elements[later].name) == Some(field),
        elements[earlier].context_ref == Some(qualifier),
        elements[later].context_ref == Some(qualifier),
        match elements[later].value {
            Some(text) => is_number_text(text),
            None => false,
        },
        forall|after: int|
            later < after < elements.len() ==> !states(
                #[trigger] elements[after],
                qualifier,
                table,
                field,
            ),
    ensures
        resolved(elements, qualifier, table, field) == elements[later].value,
{
    lemma_last_statement_wins(elements, later, qualifier, table, field);
}

/// A document without elements leaves every field absent.
pub proof fn lemma_empty_document_fills_nothing<F>(
    qualifier: Seq<char>,
    table: Seq<(Seq<char>, F)>,
    field: F,
)
    ensures
        preorder_forest(Seq::<ElementModel>::empty()) == Seq::<ElementModel>::empty(),
        resolved(
            preorder_forest(Seq::<ElementModel>::empty()),
            qualifier,
            table,
            field,
        ) is None,
{
}

} // verus!
