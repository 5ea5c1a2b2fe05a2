//! What counts as a use of a function, and which orders of definitions are accepted.
use super::{
    accepted_items_have_no_forward_reference, checked, defined_before, expression_calls,
    expressions_calls, first_undefined, imported_names, item_calls, item_defines, name_calls,
    single_calls, statement_calls, statements_calls,
};
use crate::list::{shared, List};
use crate::parse::{
    CallName, Either, Expression, ExpressionInner, Item, SingleExpression, SingleExpressionInner,
    Statement, UseItems,
};
use vstd::prelude::*;

verus! {

/// Whether a call names a function of the program: it calls the function, or it calls it for the
/// elements of a list or of an array, or in a loop.
pub open spec fn names_function(name: CallName, f: Seq<char>) -> bool {
    ||| name matches CallName::Custom(g) && g@ == f
    ||| name matches CallName::Fold(g, _) && g@ == f
    ||| name matches CallName::ArrayFold(g, _) && g@ == f
    ||| name matches CallName::ForWhile(g) && g@ == f
}

/// Whether a function is called anywhere in an expression.
pub open spec fn uses(e: Expression, f: Seq<char>) -> bool
    decreases e,
{
    match e.inner {
        ExpressionInner::Single(single) => single_uses(single, f),
        ExpressionInner::Block(list, last) => any_statement_uses(*list, f) || (
        last matches Some(value) && uses(*value, f)),
    }
}

/// Whether a function is called anywhere in statements.
pub open spec fn any_statement_uses(list: List<Statement>, f: Seq<char>) -> bool
    decreases list,
{
    match list {
        List::Nil => false,
        List::Cons(head, tail) => statement_uses(head, f) || any_statement_uses(*tail, f),
    }
}

/// Whether a function is called anywhere in a statement.
pub open spec fn statement_uses(statement: Statement, f: Seq<char>) -> bool
    decreases statement,
{
    match statement {
        Statement::Assignment(a) => uses(a.expression, f),
        Statement::Expression(e) => uses(e, f),
    }
}

/// Whether a function is called anywhere in expressions.
pub open spec fn any_uses(list: List<Expression>, f: Seq<char>) -> bool
    decreases list,
{
    match list {
        List::Nil => false,
        List::Cons(head, tail) => uses(head, f) || any_uses(*tail, f),
    }
}

/// Whether a function is called anywhere in an expression which directly returns a value.
pub open spec fn single_uses(single: SingleExpression, f: Seq<char>) -> bool
    decreases single,
{
    match single.inner {
        SingleExpressionInner::Call(call) => names_function(call.name, f) || any_uses(
            *call.args,
            f,
        ),
        SingleExpressionInner::Expression(e) => uses(*e, f),
        SingleExpressionInner::Option(None) => false,
        SingleExpressionInner::Option(Some(e)) => uses(*e, f),
        SingleExpressionInner::Either(Either::Left(e)) => uses(*e, f),
        SingleExpressionInner::Either(Either::Right(e)) => uses(*e, f),
        SingleExpressionInner::Tuple(list) => any_uses(*list, f),
        SingleExpressionInner::Array(list) => any_uses(*list, f),
        SingleExpressionInner::List(list) => any_uses(*list, f),
        SingleExpressionInner::Match(m) => uses(*m.scrutinee, f) || uses(*m.left.expression, f)
            || uses(*m.right.expression, f),
        SingleExpressionInner::Boolean(_) => false,
        SingleExpressionInner::Decimal(_) => false,
        SingleExpressionInner::Binary(_) => false,
        SingleExpressionInner::Hexadecimal(_) => false,
        SingleExpressionInner::Witness(_) => false,
        SingleExpressionInner::Parameter(_) => false,
        SingleExpressionInner::Variable(_) => false,
    }
}

/// What is in one of two sequences is in both together, and the other way round.
proof fn lemma_contains_sum<T>(a: Seq<T>, b: Seq<T>, x: T)
    ensures
        (a + b).contains(x) <==> a.contains(x) || b.contains(x),
{
    if a.contains(x) {
        let i = choose|i: int| 0 <= i < a.len() && a[i] == x;
        assert((a + b)[i] == x);
    }
    if b.contains(x) {
        let i = choose|i: int| 0 <= i < b.len() && b[i] == x;
        assert((a + b)[a.len() + i] == x);
    }
    if (a + b).contains(x) {
        let i = choose|i: int| 0 <= i < (a + b).len() && (a + b)[i] == x;
        if i < a.len() {
            assert(a[i] == x);
        } else {
            assert(b[i - a.len()] == x);
        }
    }
}

/// The function that a call names is the one that it is counted for.
proof fn lemma_name_calls(name: CallName, f: Seq<char>)
    ensures
        name_calls(name).contains(f) <==> names_function(name, f),
{
    let calls = name_calls(name);
    if names_function(name, f) {
        assert(calls[0] == f);
    }
}

/// Every call counts as a use, and nothing else does: for an expression that holds a call of a
/// function at any depth, the called functions hold the function.
pub proof fn every_call_counts(e: Expression, f: Seq<char>)
    ensures
        expression_calls(e).contains(f) <==> uses(e, f),
    decreases e,
{
    match e.inner {
        ExpressionInner::Single(single) => {
            lemma_single_calls(single, f);
        },
        ExpressionInner::Block(list, last) => {
            let list = shared(list);
            lemma_statements_calls(list, f);
            let rest = match last {
                Some(value) => expression_calls(shared(value)),
                None => Seq::empty(),
            };
            lemma_contains_sum(statements_calls(list), rest, f);
            if let Some(value) = last {
                every_call_counts(shared(value), f);
            }
        },
    }
}

/// Every call in statements counts as a use.
proof fn lemma_statements_calls(list: List<Statement>, f: Seq<char>)
    ensures
        statements_calls(list).contains(f) <==> any_statement_uses(list, f),
    decreases list,
{
    if let List::Cons(head, tail) = list {
        lemma_statement_calls(head, f);
        lemma_statements_calls(*tail, f);
        lemma_contains_sum(statement_calls(head), statements_calls(*tail), f);
    }
}

/// Every call in a statement counts as a use.
proof fn lemma_statement_calls(statement: Statement, f: Seq<char>)
    ensures
        statement_calls(statement).contains(f) <==> statement_uses(statement, f),
    decreases statement,
{
    match statement {
        Statement::Assignment(a) => {
            every_call_counts(a.expression, f);
        },
        Statement::Expression(e) => {
            every_call_counts(e, f);
        },
    }
}

/// Every call in expressions counts as a use.
proof fn lemma_expressions_calls(list: List<Expression>, f: Seq<char>)
    ensures
        expressions_calls(list).contains(f) <==> any_uses(list, f),
    decreases list,
{
    if let List::Cons(head, tail) = list {
        every_call_counts(head, f);
        lemma_expressions_calls(*tail, f);
        lemma_contains_sum(expression_calls(head), expressions_calls(*tail), f);
    }
}

/// Every call in an expression that directly returns a value counts as a use.
proof fn lemma_single_calls(single: SingleExpression, f: Seq<char>)
    ensures
        single_calls(single).contains(f) <==> single_uses(single, f),
    decreases single,
{
    match single.inner {
        SingleExpressionInner::Call(call) => {
            let args = shared(call.args);
            lemma_expressions_calls(args, f);
            lemma_name_calls(call.name, f);
            lemma_contains_sum(expressions_calls(args), name_calls(call.name), f);
        },
        SingleExpressionInner::Expression(e) => {
            every_call_counts(shared(e), f);
        },
        SingleExpressionInner::Option(Some(e)) => {
            every_call_counts(shared(e), f);
        },
        SingleExpressionInner::Either(Either::Left(e)) => {
            every_call_counts(shared(e), f);
        },
        SingleExpressionInner::Either(Either::Right(e)) => {
            every_call_counts(shared(e), f);
        },
        SingleExpressionInner::Tuple(list) => {
            lemma_expressions_calls(shared(list), f);
        },
        SingleExpressionInner::Array(list) => {
            lemma_expressions_calls(shared(list), f);
        },
        SingleExpressionInner::List(list) => {
            lemma_expressions_calls(shared(list), f);
        },
        SingleExpressionInner::Match(m) => {
            let scrutinee = shared(m.scrutinee);
            let left = shared(m.left.expression);
            let right = shared(m.right.expression);
            every_call_counts(scrutinee, f);
            every_call_counts(left, f);
            every_call_counts(right, f);
            lemma_contains_sum(expression_calls(scrutinee), expression_calls(left), f);
            lemma_contains_sum(
                expression_calls(scrutinee) + expression_calls(left),
                expression_calls(right),
                f,
            );
        },
        _ => {},
    }
}

/// What one of the statements uses, the statements use.
proof fn lemma_any_statement_uses(list: List<Statement>, i: int, f: Seq<char>)
    requires
        0 <= i < list@.len(),
        statement_uses(list@[i], f),
    ensures
        any_statement_uses(list, f),
    decreases list,
{
    if let List::Cons(head, tail) = list {
        if i > 0 {
            assert(tail@[i - 1] == list@[i]);
            lemma_any_statement_uses(*tail, i - 1, f);
        } else {
            assert(list@[0] == head);
        }
    }
}

/// What one of the expressions uses, the expressions use.
proof fn lemma_any_uses(list: List<Expression>, i: int, f: Seq<char>)
    requires
        0 <= i < list@.len(),
        uses(list@[i], f),
    ensures
        any_uses(list, f),
    decreases list,
{
    if let List::Cons(head, tail) = list {
        if i > 0 {
            assert(tail@[i - 1] == list@[i]);
            lemma_any_uses(*tail, i - 1, f);
        } else {
            assert(list@[0] == head);
        }
    }
}

/// A block uses what its statements and its final expression use. In particular it uses what the
/// right-hand sides of its assignments use.
pub proof fn block_uses_what_its_parts_use(block: Expression, f: Seq<char>)
    ensures
        block.inner matches ExpressionInner::Block(list, last) ==> {
            &&& forall|i: int|
                0 <= i < list@.len() ==> match #[trigger] list@[i] {
                    Statement::Assignment(a) => expression_calls(a.expression).contains(f)
                        ==> expression_calls(block).contains(f),
                    Statement::Expression(e) => expression_calls(e).contains(f)
                        ==> expression_calls(block).contains(f),
                }
            &&& last matches Some(value) ==> expression_calls(*value).contains(f)
                ==> expression_calls(block).contains(f)
        },
{
    every_call_counts(block, f);
    if let ExpressionInner::Block(list, last) = block.inner {
        let statements = shared(list);
        assert forall|i: int| 0 <= i < statements@.len() implies match #[trigger] statements@[i] {
            Statement::Assignment(a) => expression_calls(a.expression).contains(f)
                ==> expression_calls(block).contains(f),
            Statement::Expression(e) => expression_calls(e).contains(f)
                ==> expression_calls(block).contains(f),
        } by {
            lemma_statement_calls(statements@[i], f);
            if statement_uses(statements@[i], f) {
                lemma_any_statement_uses(statements, i, f);
            }
        }
        if let Some(value) = last {
            every_call_counts(shared(value), f);
        }
    }
}

/// A call uses the function that it names and what its arguments use.
pub proof fn call_uses_function_and_arguments(single: SingleExpression, f: Seq<char>)
    ensures
        single.inner matches SingleExpressionInner::Call(call) ==> {
            &&& names_function(call.name, f) ==> single_calls(single).contains(f)
            &&& forall|i: int|
                0 <= i < call.args@.len() && expression_calls(#[trigger] call.args@[i]).contains(f)
                    ==> single_calls(single).contains(f)
        },
{
    lemma_single_calls(single, f);
    if let SingleExpressionInner::Call(call) = single.inner {
        let args = shared(call.args);
        assert forall|i: int|
            0 <= i < args@.len() && expression_calls(#[trigger] args@[i]).contains(
                f,
            ) implies single_calls(single).contains(f) by {
            every_call_counts(args@[i], f);
            lemma_any_uses(args, i, f);
        }
    }
}

/// Whether an item makes a function known: it defines it or imports it.
pub open spec fn introduces(item: Item, f: Seq<char>) -> bool {
    match item {
        Item::Function(function) => function.name@ == f,
        Item::Use(decl) => match decl.items {
            UseItems::Single(imported) => imported.name@ == f,
            UseItems::List(list) => exists|i: int|
                0 <= i < list@.len() && (#[trigger] list@[i]).name@ == f,
        },
        _ => false,
    }
}

/// Whether a function was known from the start or is made known by one of the first `n` items.
pub open spec fn is_known(defined: Set<Seq<char>>, items: Seq<Item>, n: int, f: Seq<char>) -> bool {
    defined.contains(f) || exists|m: int| 0 <= m < n && introduces(#[trigger] items[m], f)
}

/// Whether an item is a function in which another function is called.
pub open spec fn item_uses(item: Item, f: Seq<char>) -> bool {
    item matches Item::Function(function) && uses(*function.body, f)
}

/// The functions that an item makes known.
proof fn lemma_introduces(item: Item, f: Seq<char>)
    ensures
        item_defines(item).contains(f) <==> introduces(item, f),
{
    if let Item::Use(decl) = item {
        if let UseItems::List(list) = decl.items {
            let all = imported_names(list@);
            if all.contains(f) {
                let i = choose|i: int| 0 <= i < all.len() && all[i] == f;
                assert(list@[i].name@ == f);
            }
            if introduces(item, f) {
                let i = choose|i: int| 0 <= i < list@.len() && (#[trigger] list@[i]).name@ == f;
                assert(all[i] == f);
            }
        }
    }
}

/// The functions that are known in front of an item.
proof fn lemma_is_known(defined: Set<Seq<char>>, items: Seq<Item>, n: int, f: Seq<char>)
    requires
        0 <= n <= items.len(),
    ensures
        defined_before(defined, items, n).contains(f) <==> is_known(defined, items, n, f),
    decreases n,
{
    if n > 0 {
        lemma_is_known(defined, items, n - 1, f);
        lemma_introduces(items[n - 1], f);
        if introduces(items[n - 1], f) {
            assert(is_known(defined, items, n, f));
        }
    }
}

/// What an item calls is what its body uses.
proof fn lemma_item_calls(item: Item, f: Seq<char>)
    ensures
        item_calls(item).contains(f) <==> item_uses(item, f),
{
    if let Item::Function(function) = item {
        every_call_counts(shared(function.body), f);
    }
}

/// Items are accepted if and only if each function that is called anywhere in the body of a
/// function is introduced by an earlier item, or was known from the start. A function does not
/// introduce itself for its own body.
pub proof fn accepted_exactly_without_forward_references(
    defined: Set<Seq<char>>,
    items: List<Item>,
)
    ensures
        checked(defined, items).1 is None <==> forall|n: int, f: Seq<char>|
            0 <= n < items@.len() && #[trigger] item_uses(items@[n], f) ==> is_known(
                defined,
                items@,
                n,
                f,
            ),
{
    let all = items@;
    accepted_items_have_no_forward_reference(defined, items);
    if checked(defined, items).1 is None {
        assert forall|n: int, f: Seq<char>|
            0 <= n < all.len() && #[trigger] item_uses(all[n], f) implies is_known(
            defined,
            all,
            n,
            f,
        ) by {
            lemma_item_calls(all[n], f);
            lemma_is_known(defined, all, n, f);
            let calls = item_calls(all[n]);
            let i = choose|i: int| 0 <= i < calls.len() && calls[i] == f;
            assert(defined_before(defined, all, n).contains(item_calls(all[n])[i]));
        }
    } else {
        let (n, i) = choose|n: int, i: int|
            0 <= n < all.len() && 0 <= i < item_calls(all[n]).len() && !defined_before(
                defined,
                all,
                n,
            ).contains(#[trigger] item_calls(all[n])[i]);
        let f = item_calls(all[n])[i];
        assert(item_calls(all[n]).contains(f));
        lemma_item_calls(all[n], f);
        lemma_is_known(defined, all, n, f);
        assert(item_uses(all[n], f) && !is_known(defined, all, n, f));
    }
}

/// After accepted items, the known functions are those that were known from the start and those
/// that the items introduce.
pub proof fn accepted_items_introduce_functions(
    defined: Set<Seq<char>>,
    items: List<Item>,
    f: Seq<char>,
)
    requires
        checked(defined, items).1 is None,
    ensures
        checked(defined, items).0.contains(f) <==> is_known(defined, items@, items@.len() as int, f),
    decreases items,
{
    if let List::Cons(head, tail) = items {
        let after = defined.union(item_defines(head));
        let all = items@;
        accepted_items_introduce_functions(after, *tail, f);
        lemma_introduces(head, f);
        assert(all[0] == head);
        assert forall|m: int| 0 <= m < tail@.len() implies #[trigger] tail@[m] == all[m + 1] by {}
        if is_known(defined, all, all.len() as int, f) && !defined.contains(f) {
            let m = choose|m: int| 0 <= m < all.len() && introduces(#[trigger] all[m], f);
            if m > 0 {
                assert(introduces(tail@[m - 1], f));
            }
        }
        if is_known(after, tail@, tail@.len() as int, f) && !after.contains(f) {
            let m = choose|m: int| 0 <= m < tail@.len() && introduces(#[trigger] tail@[m], f);
            assert(introduces(all[m + 1], f));
        }
    }
}

/// The first undefined function is called, and the functions that are called before it are defined.
proof fn lemma_first(calls: Seq<Seq<char>>, defined: Set<Seq<char>>) -> (at: int)
    ensures
        first_undefined(calls, defined) matches Some(name) ==> {
            &&& 0 <= at < calls.len()
            &&& calls[at] == name
            &&& !defined.contains(name)
            &&& forall|j: int| 0 <= j < at ==> defined.contains(#[trigger] calls[j])
        },
    decreases calls.len(),
{
    if calls.len() > 0 && defined.contains(calls[0]) {
        let rest = calls.drop_first();
        let at = lemma_first(rest, defined);
        assert forall|j: int|
            first_undefined(calls, defined) is Some && 0 <= j < at + 1 implies defined.contains(
            #[trigger] calls[j],
        ) by {
            if j > 0 {
                assert(rest[j - 1] == calls[j]);
            }
        }
        at + 1
    } else {
        0
    }
}

/// Whether the `n`-th item is the function `user`, and the first call in it that is not known in
/// front of it is one of the function `used`.
pub open spec fn is_first_forward_call(
    defined: Set<Seq<char>>,
    items: Seq<Item>,
    n: int,
    user: Seq<char>,
    used: Seq<char>,
) -> bool {
    &&& 0 <= n < items.len()
    &&& items[n] matches Item::Function(function) && function.name@ == user
    &&& item_uses(items[n], used)
    &&& !is_known(defined, items, n, used)
    &&& exists|at: int|
        0 <= at < item_calls(items[n]).len() && #[trigger] item_calls(items[n])[at] == used
            && forall|j: int|
            0 <= j < at ==> is_known(defined, items, n, #[trigger] item_calls(items[n])[j])
}

/// The reported reference is the first one: the function that is used is not known in front of the
/// function that uses it, the functions that are called before it are, and so are all functions
/// that are called in earlier items.
pub proof fn first_forward_reference_is_reported(defined: Set<Seq<char>>, items: List<Item>)
    ensures
        checked(defined, items).1 matches Some((user, used)) ==> exists|n: int|
            #![trigger items@[n]]
            is_first_forward_call(defined, items@, n, user, used) && forall|m: int, f: Seq<char>|
                0 <= m < n && #[trigger] item_uses(items@[m], f) ==> is_known(
                    defined,
                    items@,
                    m,
                    f,
                ),
    decreases items,
{
    if let List::Cons(head, tail) = items {
        let all = items@;
        let after = defined.union(item_defines(head));
        assert(all[0] == head);
        assert forall|m: int| 0 <= m < tail@.len() implies #[trigger] tail@[m] == all[m + 1] by {}
        if let Some((user, used)) = checked(defined, items).1 {
            if first_undefined(item_calls(head), defined) is Some {
                let at = lemma_first(item_calls(head), defined);
                lemma_item_calls(head, used);
                assert(item_calls(all[0])[at] == used);
                assert forall|j: int| 0 <= j < at implies is_known(
                    defined,
                    all,
                    0,
                    #[trigger] item_calls(all[0])[j],
                ) by {}
                assert(is_first_forward_call(defined, all, 0, user, used));
            } else {
                first_forward_reference_is_reported(after, *tail);
                let n = choose|n: int|
                    #![trigger tail@[n]]
                    is_first_forward_call(after, tail@, n, user, used) && forall|
                        m: int,
                        f: Seq<char>,
                    |
                        0 <= m < n && #[trigger] item_uses(tail@[m], f) ==> is_known(
                            after,
                            tail@,
                            m,
                            f,
                        );
                assert(all[n + 1] == tail@[n]);
                assert forall|m: int, f: Seq<char>| 0 <= m <= tail@.len() implies (is_known(
                    after,
                    tail@,
                    m,
                    f,
                ) <==> #[trigger] is_known(defined, all, m + 1, f)) by {
                    lemma_shifted(defined, items, m, f);
                }
                let at = choose|at: int|
                    0 <= at < item_calls(tail@[n]).len() && #[trigger] item_calls(tail@[n])[at]
                        == used && forall|j: int|
                        0 <= j < at ==> is_known(
                            after,
                            tail@,
                            n,
                            #[trigger] item_calls(tail@[n])[j],
                        );
                assert(!is_known(defined, all, n + 1, used));
                assert forall|j: int| 0 <= j < at implies is_known(
                    defined,
                    all,
                    n + 1,
                    #[trigger] item_calls(all[n + 1])[j],
                ) by {
                    assert(is_known(after, tail@, n, item_calls(tail@[n])[j]));
                    lemma_shifted(defined, items, n, item_calls(tail@[n])[j]);
                }
                assert(item_calls(all[n + 1])[at] == used);
                assert(is_first_forward_call(defined, all, n + 1, user, used));
                assert forall|m: int, f: Seq<char>|
                    0 <= m < n + 1 && #[trigger] item_uses(all[m], f) implies is_known(
                    defined,
                    all,
                    m,
                    f,
                ) by {
                    if m == 0 {
                        lemma_item_calls(head, f);
                        lemma_none_undefined(item_calls(head), defined, f);
                    } else {
                        assert(tail@[m - 1] == all[m]);
                        assert(item_uses(tail@[m - 1], f));
                        lemma_shifted(defined, items, m - 1, f);
                    }
                }
            }
        }
    }
}

/// If no called function is undefined, each is defined.
proof fn lemma_none_undefined(calls: Seq<Seq<char>>, defined: Set<Seq<char>>, f: Seq<char>)
    requires
        first_undefined(calls, defined) is None,
        calls.contains(f),
    ensures
        defined.contains(f),
    decreases calls.len(),
{
    let i = choose|i: int| 0 <= i < calls.len() && calls[i] == f;
    if i > 0 {
        assert(calls.drop_first()[i - 1] == f);
        lemma_none_undefined(calls.drop_first(), defined, f);
    }
}

/// What is known in front of an item behind the first one.
proof fn lemma_shifted(defined: Set<Seq<char>>, items: List<Item>, m: int, f: Seq<char>)
    requires
        items is Cons,
        0 <= m < items@.len(),
    ensures
        is_known(defined.union(item_defines(items->Cons_0)), items->Cons_1@, m, f) <==> is_known(
            defined,
            items@,
            m + 1,
            f,
        ),
{
    if let List::Cons(head, tail) = items {
        let all = items@;
        let after = defined.union(item_defines(head));
        lemma_introduces(head, f);
        assert(all[0] == head);
        assert forall|i: int| 0 <= i < tail@.len() implies #[trigger] tail@[i] == all[i + 1] by {}
        if is_known(defined, all, m + 1, f) && !defined.contains(f) {
            let i = choose|i: int| 0 <= i < m + 1 && introduces(#[trigger] all[i], f);
            if i > 0 {
                assert(introduces(tail@[i - 1], f));
            }
        }
        if is_known(after, tail@, m, f) && !after.contains(f) {
            let i = choose|i: int| 0 <= i < m && introduces(#[trigger] tail@[i], f);
            assert(introduces(all[i + 1], f));
        }
    }
}

} // verus!
