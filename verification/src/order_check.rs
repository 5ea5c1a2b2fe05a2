//! Check that functions are defined before they are used.
pub mod laws;

use crate::list::{shared, List};
use crate::name::{names, FunctionName, Identifier};
use crate::parse::{
    Call, CallName, Either, Expression, ExpressionInner, Item, SingleExpression,
    SingleExpressionInner, Statement, UseItem, UseItems,
};
use vstd::prelude::*;

verus! {

/// Why the order of definitions is wrong.
#[derive(Debug, PartialEq, Eq)]
pub enum OrderError {
    /// A function uses a function that is not defined before it.
    ForwardReference {
        /// The function that is being defined.
        user: Identifier,
        /// The function that it uses.
        used: Identifier,
    },
}

impl Clone for OrderError {
    fn clone(&self) -> (result: Self)
        ensures
            result == *self,
    {
        match self {
            OrderError::ForwardReference { user, used } => OrderError::ForwardReference {
                user: user.clone(),
                used: used.clone(),
            },
        }
    }
}

/// The functions that are defined so far.
#[derive(Debug)]
pub struct OrderValidator {
    pub defined_functions: Vec<FunctionName>,
}

impl View for OrderValidator {
    type V = Set<Seq<char>>;

    open spec fn view(&self) -> Set<Seq<char>> {
        names(self.defined_functions@).to_set()
    }
}

impl View for OrderError {
    type V = (Seq<char>, Seq<char>);

    /// The function that is being defined and the function that it uses.
    open spec fn view(&self) -> (Seq<char>, Seq<char>) {
        match self {
            OrderError::ForwardReference { user, used } => (user@, used@),
        }
    }
}

/// The functions of the program that an expression calls, in the order in which they are called.
pub open spec fn expression_calls(expr: Expression) -> Seq<Seq<char>>
    decreases expr,
{
    match expr.inner {
        ExpressionInner::Single(single) => single_calls(single),
        ExpressionInner::Block(statements, last) => statements_calls(*statements) + match last {
            Some(e) => expression_calls(*e),
            None => Seq::empty(),
        },
    }
}

/// The functions of the program that statements call.
pub open spec fn statements_calls(statements: List<Statement>) -> Seq<Seq<char>>
    decreases statements,
{
    match statements {
        List::Nil => Seq::empty(),
        List::Cons(statement, rest) => statement_calls(statement) + statements_calls(*rest),
    }
}

/// The functions of the program that a statement calls.
pub open spec fn statement_calls(statement: Statement) -> Seq<Seq<char>>
    decreases statement,
{
    match statement {
        Statement::Assignment(assignment) => expression_calls(assignment.expression),
        Statement::Expression(e) => expression_calls(e),
    }
}

/// The functions of the program that expressions call.
pub open spec fn expressions_calls(list: List<Expression>) -> Seq<Seq<char>>
    decreases list,
{
    match list {
        List::Nil => Seq::empty(),
        List::Cons(e, rest) => expression_calls(e) + expressions_calls(*rest),
    }
}

/// The functions of the program that an expression calls which directly returns a value.
pub open spec fn single_calls(single: SingleExpression) -> Seq<Seq<char>>
    decreases single,
{
    match single.inner {
        SingleExpressionInner::Call(call) => expressions_calls(*call.args) + name_calls(call.name),
        SingleExpressionInner::Expression(e) => expression_calls(*e),
        SingleExpressionInner::Option(Some(e)) => expression_calls(*e),
        SingleExpressionInner::Either(Either::Left(e)) => expression_calls(*e),
        SingleExpressionInner::Either(Either::Right(e)) => expression_calls(*e),
        SingleExpressionInner::Tuple(list) => expressions_calls(*list),
        SingleExpressionInner::Array(list) => expressions_calls(*list),
        SingleExpressionInner::List(list) => expressions_calls(*list),
        SingleExpressionInner::Match(m) => expression_calls(*m.scrutinee) + expression_calls(
            *m.left.expression,
        ) + expression_calls(*m.right.expression),
        _ => Seq::empty(),
    }
}

/// The function of the program that a call names, if any.
pub open spec fn name_calls(name: CallName) -> Seq<Seq<char>> {
    match name {
        CallName::Custom(f) => seq![f@],
        CallName::Fold(f, _) => seq![f@],
        CallName::ArrayFold(f, _) => seq![f@],
        CallName::ForWhile(f) => seq![f@],
        _ => Seq::empty(),
    }
}

/// The names of imported items, where they are defined.
pub open spec fn imported_names(items: Seq<UseItem>) -> Seq<Seq<char>> {
    Seq::new(items.len(), |i: int| items[i].name@)
}

/// The functions that an item defines.
pub open spec fn item_defines(item: Item) -> Set<Seq<char>> {
    match item {
        Item::Function(function) => set![function.name@],
        Item::Use(use_decl) => match use_decl.items {
            UseItems::Single(item) => set![item.name@],
            UseItems::List(items) => imported_names(items@).to_set(),
        },
        _ => Set::empty(),
    }
}

/// The functions that an item calls.
pub open spec fn item_calls(item: Item) -> Seq<Seq<char>> {
    match item {
        Item::Function(function) => expression_calls(*function.body),
        _ => Seq::empty(),
    }
}

/// The first of the called functions that is not defined.
pub open spec fn first_undefined(calls: Seq<Seq<char>>, defined: Set<Seq<char>>) -> Option<
    Seq<char>,
>
    decreases calls.len(),
{
    if calls.len() == 0 {
        None
    } else if defined.contains(calls[0]) {
        first_undefined(calls.drop_first(), defined)
    } else {
        Some(calls[0])
    }
}

/// The functions that are defined after items, and the first use of a function before it is
/// defined: the function that uses it and the used function. Nothing is defined from there on.
pub open spec fn checked(defined: Set<Seq<char>>, items: List<Item>) -> (
    Set<Seq<char>>,
    Option<(Seq<char>, Seq<char>)>,
)
    decreases items,
{
    match items {
        List::Nil => (defined, None),
        List::Cons(item, rest) => match first_undefined(item_calls(item), defined) {
            Some(used) => (defined, Some((item->Function_0.name@, used))),
            None => checked(defined.union(item_defines(item)), *rest),
        },
    }
}

/// The first undefined function of two lists is that of the first one, if there is any.
proof fn lemma_first_undefined(a: Seq<Seq<char>>, b: Seq<Seq<char>>, defined: Set<Seq<char>>)
    ensures
        first_undefined(a + b, defined) == (match first_undefined(a, defined) {
            Some(name) => Some(name),
            None => first_undefined(b, defined),
        }),
    decreases a.len(),
{
    if a.len() == 0 {
        assert(a + b =~= b);
    } else {
        assert((a + b).drop_first() =~= a.drop_first() + b);
        lemma_first_undefined(a.drop_first(), b, defined);
    }
}

/// Whether the outcome of a check is that of the called functions.
pub open spec fn is_checked(
    result: Result<(), OrderError>,
    calls: Seq<Seq<char>>,
    defined: Set<Seq<char>>,
    user: Seq<char>,
) -> bool {
    match (result, first_undefined(calls, defined)) {
        (Ok(_), None) => true,
        (Err(e), Some(used)) => e@ == (user, used),
        _ => false,
    }
}

impl OrderValidator {
    /// Create a validator for which no function is defined.
    pub fn new() -> (result: OrderValidator)
        ensures
            result@ == Set::<Seq<char>>::empty(),
    {
        let result = OrderValidator { defined_functions: Vec::new() };
        assert(names(result.defined_functions@) =~= Seq::empty());
        assert(result@ =~= Set::<Seq<char>>::empty());
        result
    }

    /// Check whether a function is defined.
    fn is_defined(&self, name: &FunctionName) -> (result: bool)
        ensures
            result == self@.contains(name@),
    {
        let ghost all = names(self.defined_functions@);
        let mut i: usize = 0;
        while i < self.defined_functions.len()
            invariant
                i <= self.defined_functions.len(),
                all == names(self.defined_functions@),
                forall|j: int| 0 <= j < i ==> #[trigger] all[j] != name@,
            decreases self.defined_functions.len() - i,
        {
            if self.defined_functions[i].same(name) {
                assert(all[i as int] == name@);
                return true;
            }
            i = i + 1;
        }
        false
    }

    /// Define a function.
    fn define(&mut self, name: FunctionName)
        ensures
            final(self)@ == old(self)@.insert(name@),
    {
        let ghost before = names(self.defined_functions@);
        self.defined_functions.push(name);
        proof {
            let after = names(self.defined_functions@);
            assert(after =~= before.push(name@));
            assert forall|x: Seq<char>| #[trigger]
                after.to_set().contains(x) <==> before.to_set().insert(name@).contains(x) by {
                if before.contains(x) {
                    let i = choose|i: int| 0 <= i < before.len() && before[i] == x;
                    assert(after[i] == x);
                }
                assert(after[before.len() as int] == name@);
            }
            assert(after.to_set() =~= before.to_set().insert(name@));
        }
    }

    /// Check items, one after the other.
    ///
    /// ## Errors
    ///
    /// * [`OrderError::ForwardReference`] A function uses a function that no earlier item defines.
    pub fn check_stream(&mut self, items: &List<Item>) -> (result: Result<(), OrderError>)
        ensures
            ({
                let (defined, error) = checked(old(self)@, *items);
                &&& final(self)@ == defined
                &&& match (result, error) {
                    (Ok(_), None) => true,
                    (Err(actual), Some(e)) => actual@ == e,
                    _ => false,
                }
            }),
    {
        let mut rest: &List<Item> = items;
        loop
            invariant
                checked(old(self)@, *items) == checked(self@, *rest),
            decreases *rest,
        {
            match rest {
                List::Nil => {
                    return Ok(());
                },
                List::Cons(item, tail) => {
                    if let Err(e) = self.check_item(item) {
                        return Err(e);
                    }
                    rest = tail;
                },
            }
        }
    }

    /// Check an item.
    ///
    /// ## Errors
    ///
    /// * [`OrderError::ForwardReference`] The item is a function that uses an undefined function.
    pub fn check_item(&mut self, item: &Item) -> (result: Result<(), OrderError>)
        ensures
            match (result, first_undefined(item_calls(*item), old(self)@)) {
                (Ok(_), None) => final(self)@ == old(self)@.union(item_defines(*item)),
                (Err(e), Some(used)) => final(self)@ == old(self)@ && item is Function && e@ == (
                    item->Function_0.name@,
                    used,
                ),
                _ => false,
            },
    {
        let ghost before = self@;
        match item {
            Item::Function(func) => {
                if let Err(e) = self.check_expression(&func.body, &func.name) {
                    return Err(e);
                }
                self.define(func.name.clone());
                assert(self@ =~= before.union(item_defines(*item)));
            },
            Item::Use(use_decl) => {
                match &use_decl.items {
                    UseItems::Single(elem) => {
                        self.define(elem.name.clone());
                        assert(self@ =~= before.union(item_defines(*item)));
                    },
                    UseItems::List(elems) => {
                        let ghost all = imported_names(elems@);
                        let mut i: usize = 0;
                        assert(self@ =~= before.union(all.take(0).to_set()));
                        while i < elems.len()
                            invariant
                                i <= elems.len(),
                                all == imported_names(elems@),
                                self@ == before.union(all.take(i as int).to_set()),
                            decreases elems.len() - i,
                        {
                            self.define(elems[i].name.clone());
                            i = i + 1;
                            proof {
                                lemma_take_to_set(all, i as int);
                                assert(self@ =~= before.union(all.take(i as int).to_set()));
                            }
                        }
                        assert(all.take(i as int) =~= all);
                    },
                }
            },
            _ => {
                assert(before.union(item_defines(*item)) =~= before);
            },
        }
        Ok(())
    }

    /// Check the functions that an expression uses.
    ///
    /// ## Errors
    ///
    /// * [`OrderError::ForwardReference`] The expression uses an undefined function.
    pub fn check_expression(&self, expr: &Expression, current_func: &Identifier) -> (result: Result<
        (),
        OrderError,
    >)
        ensures
            is_checked(result, expression_calls(*expr), self@, current_func@),
        decreases expr,
    {
        match &expr.inner {
            ExpressionInner::Single(single) => self.check_single(single, current_func),
            ExpressionInner::Block(stmts, final_expr) => {
                proof {
                    let last = match final_expr {
                        Some(e) => expression_calls(shared(*e)),
                        None => Seq::empty(),
                    };
                    lemma_first_undefined(statements_calls(shared(*stmts)), last, self@);
                }
                if let Err(e) = self.check_statements(stmts, current_func) {
                    return Err(e);
                }
                match final_expr {
                    Some(e) => self.check_expression(e, current_func),
                    None => Ok(()),
                }
            },
        }
    }

    /// Check the functions that statements use.
    fn check_statements(&self, stmts: &List<Statement>, current_func: &Identifier) -> (result:
        Result<(), OrderError>)
        ensures
            is_checked(result, statements_calls(*stmts), self@, current_func@),
        decreases stmts,
    {
        match stmts {
            List::Nil => Ok(()),
            List::Cons(stmt, rest) => {
                proof {
                    lemma_first_undefined(statement_calls(*stmt), statements_calls(**rest), self@);
                }
                let checked = match stmt {
                    Statement::Assignment(assign) => self.check_expression(
                        &assign.expression,
                        current_func,
                    ),
                    Statement::Expression(e) => self.check_expression(e, current_func),
                };
                if let Err(e) = checked {
                    return Err(e);
                }
                self.check_statements(rest, current_func)
            },
        }
    }

    /// Check the functions that expressions use.
    fn check_expressions(&self, list: &List<Expression>, current_func: &Identifier) -> (result:
        Result<(), OrderError>)
        ensures
            is_checked(result, expressions_calls(*list), self@, current_func@),
        decreases list,
    {
        match list {
            List::Nil => Ok(()),
            List::Cons(arg, rest) => {
                proof {
                    lemma_first_undefined(expression_calls(*arg), expressions_calls(**rest), self@);
                }
                if let Err(e) = self.check_expression(arg, current_func) {
                    return Err(e);
                }
                self.check_expressions(rest, current_func)
            },
        }
    }

    /// Check the functions that an expression uses which directly returns a value.
    ///
    /// ## Errors
    ///
    /// * [`OrderError::ForwardReference`] The expression uses an undefined function.
    pub fn check_single(&self, single: &SingleExpression, current_func: &Identifier) -> (result:
        Result<(), OrderError>)
        ensures
            is_checked(result, single_calls(*single), self@, current_func@),
        decreases single,
    {
        match &single.inner {
            SingleExpressionInner::Call(call) => self.check_call(call, current_func),
            SingleExpressionInner::Expression(e) => self.check_expression(e, current_func),
            SingleExpressionInner::Option(Some(e)) => self.check_expression(e, current_func),
            SingleExpressionInner::Either(Either::Left(e)) => {
                self.check_expression(e, current_func)
            },
            SingleExpressionInner::Either(Either::Right(e)) => {
                self.check_expression(e, current_func)
            },
            SingleExpressionInner::Tuple(args) => self.check_expressions(args, current_func),
            SingleExpressionInner::Array(args) => self.check_expressions(args, current_func),
            SingleExpressionInner::List(args) => self.check_expressions(args, current_func),
            SingleExpressionInner::Match(m) => {
                proof {
                    let scrutinee = expression_calls(shared(m.scrutinee));
                    let left = expression_calls(shared(m.left.expression));
                    let right = expression_calls(shared(m.right.expression));
                    lemma_first_undefined(scrutinee + left, right, self@);
                    lemma_first_undefined(scrutinee, left, self@);
                }
                if let Err(e) = self.check_expression(&m.scrutinee, current_func) {
                    return Err(e);
                }
                if let Err(e) = self.check_expression(&m.left.expression, current_func) {
                    return Err(e);
                }
                self.check_expression(&m.right.expression, current_func)
            },
            SingleExpressionInner::Boolean(_)
            | SingleExpressionInner::Decimal(_)
            | SingleExpressionInner::Binary(_)
            | SingleExpressionInner::Hexadecimal(_)
            | SingleExpressionInner::Witness(_)
            | SingleExpressionInner::Parameter(_)
            | SingleExpressionInner::Variable(_)
            | SingleExpressionInner::Option(None) => Ok(()),
        }
    }

    /// Check the functions that a call uses: those of its arguments, and then the called one.
    ///
    /// ## Errors
    ///
    /// * [`OrderError::ForwardReference`] The call uses an undefined function.
    pub fn check_call(&self, call: &Call, current_func: &Identifier) -> (result: Result<
        (),
        OrderError,
    >)
        ensures
            is_checked(
                result,
                expressions_calls(*call.args) + name_calls(call.name),
                self@,
                current_func@,
            ),
        decreases call,
    {
        proof {
            lemma_first_undefined(
                expressions_calls(shared(call.args)),
                name_calls(call.name),
                self@,
            );
        }
        if let Err(e) = self.check_expressions(&call.args, current_func) {
            return Err(e);
        }
        match &call.name {
            CallName::Custom(name)
            | CallName::Fold(name, _)
            | CallName::ArrayFold(name, _)
            | CallName::ForWhile(name) => {
                proof {
                    reveal_with_fuel(first_undefined, 2);
                    assert(name_calls(call.name)[0] == name@);
                    assert(name_calls(call.name).drop_first() =~= Seq::empty());
                }
                if !self.is_defined(name) {
                    return Err(
                        OrderError::ForwardReference {
                            user: current_func.clone(),
                            used: name.clone(),
                        },
                    );
                }
            },
            _ => {},
        }
        Ok(())
    }
}

/// The elements of a sequence up to a position.
proof fn lemma_take_to_set<T>(list: Seq<T>, n: int)
    requires
        0 < n <= list.len(),
    ensures
        list.take(n).to_set() == list.take(n - 1).to_set().insert(list[n - 1]),
{
    let after = list.take(n);
    let before = list.take(n - 1);
    assert forall|x: T| #[trigger]
        after.to_set().contains(x) <==> before.to_set().insert(list[n - 1]).contains(x) by {
        if before.contains(x) {
            let i = choose|i: int| 0 <= i < before.len() && before[i] == x;
            assert(after[i] == x);
        }
        if after.contains(x) {
            let i = choose|i: int| 0 <= i < after.len() && after[i] == x;
            if i < n - 1 {
                assert(before[i] == x);
            }
        }
        assert(after[n - 1] == list[n - 1]);
    }
    assert(after.to_set() =~= before.to_set().insert(list[n - 1]));
}

/// The functions that are defined in front of an item.
pub open spec fn defined_before(defined: Set<Seq<char>>, items: Seq<Item>, n: int) -> Set<Seq<char>>
    decreases n,
{
    if n <= 0 {
        defined
    } else {
        defined_before(defined, items, n - 1).union(item_defines(items[n - 1]))
    }
}

/// No called function is undefined if and only if all are defined.
proof fn lemma_all_defined(calls: Seq<Seq<char>>, defined: Set<Seq<char>>)
    ensures
        first_undefined(calls, defined) is None <==> forall|i: int|
            0 <= i < calls.len() ==> defined.contains(#[trigger] calls[i]),
    decreases calls.len(),
{
    if calls.len() > 0 {
        let rest = calls.drop_first();
        lemma_all_defined(rest, defined);
        assert(forall|i: int| 0 <= i < rest.len() ==> #[trigger] rest[i] == calls[i + 1]);
        if first_undefined(calls, defined) is None {
            assert forall|i: int| 0 <= i < calls.len() implies defined.contains(
                #[trigger] calls[i],
            ) by {
                if i > 0 {
                    assert(rest[i - 1] == calls[i]);
                }
            }
        }
    }
}

/// The functions that are defined in front of an item behind the first one.
proof fn lemma_defined_before(defined: Set<Seq<char>>, items: Seq<Item>, n: int)
    requires
        items.len() > 0,
        0 <= n < items.len(),
    ensures
        defined_before(defined, items, n + 1) == defined_before(
            defined.union(item_defines(items[0])),
            items.drop_first(),
            n,
        ),
    decreases n,
{
    reveal_with_fuel(defined_before, 2);
    if n > 0 {
        lemma_defined_before(defined, items, n - 1);
        assert(items.drop_first()[n - 1] == items[n]);
    }
}

/// Items are accepted if and only if each function that they use is defined by an earlier item, or
/// was defined before.
pub proof fn accepted_items_have_no_forward_reference(defined: Set<Seq<char>>, items: List<Item>)
    ensures
        checked(defined, items).1 is None <==> forall|n: int, i: int|
            0 <= n < items@.len() && 0 <= i < item_calls(items@[n]).len() ==> defined_before(
                defined,
                items@,
                n,
            ).contains(#[trigger] item_calls(items@[n])[i]),
    decreases items,
{
    match items {
        List::Nil => {},
        List::Cons(item, rest) => {
            let all = items@;
            let after = defined.union(item_defines(item));
            assert(all[0] == item);
            assert(all.drop_first() =~= rest@);
            lemma_all_defined(item_calls(item), defined);
            accepted_items_have_no_forward_reference(after, *rest);
            if checked(defined, items).1 is None {
                assert forall|n: int, i: int|
                    0 <= n < all.len() && 0 <= i < item_calls(all[n]).len() implies defined_before(
                    defined,
                    all,
                    n,
                ).contains(#[trigger] item_calls(all[n])[i]) by {
                    if n > 0 {
                        lemma_defined_before(defined, all, n - 1);
                        assert(rest@[n - 1] == all[n]);
                        assert(defined_before(after, rest@, n - 1).contains(
                            item_calls(rest@[n - 1])[i],
                        ));
                    }
                }
            } else if first_undefined(item_calls(item), defined) is Some {
                let i = choose|i: int|
                    0 <= i < item_calls(item).len() && !defined.contains(
                        #[trigger] item_calls(item)[i],
                    );
                assert(!defined_before(defined, all, 0).contains(item_calls(all[0])[i]));
            } else {
                let (n, i) = choose|n: int, i: int|
                    0 <= n < rest@.len() && 0 <= i < item_calls(rest@[n]).len() && !defined_before(
                        after,
                        rest@,
                        n,
                    ).contains(#[trigger] item_calls(rest@[n])[i]);
                lemma_defined_before(defined, all, n);
                assert(rest@[n] == all[n + 1]);
                assert(!defined_before(defined, all, n + 1).contains(item_calls(all[n + 1])[i]));
            }
        },
    }
}

/// The first undefined function is called and not defined.
proof fn lemma_undefined(calls: Seq<Seq<char>>, defined: Set<Seq<char>>)
    ensures
        first_undefined(calls, defined) matches Some(name) ==> calls.contains(name)
            && !defined.contains(name),
    decreases calls.len(),
{
    if calls.len() > 0 {
        let rest = calls.drop_first();
        lemma_undefined(rest, defined);
        if let Some(name) = first_undefined(calls, defined) {
            if defined.contains(calls[0]) {
                let i = choose|i: int| 0 <= i < rest.len() && rest[i] == name;
                assert(calls[i + 1] == name);
            } else {
                assert(calls[0] == name);
            }
        }
    }
}

/// Whether an item is the function `user`, which calls the function `used` that no earlier item
/// defines.
pub open spec fn is_forward_reference(
    defined: Set<Seq<char>>,
    items: Seq<Item>,
    n: int,
    user: Seq<char>,
    used: Seq<char>,
) -> bool {
    &&& 0 <= n < items.len()
    &&& items[n] matches Item::Function(function) && function.name@ == user
    &&& item_calls(items[n]).contains(used)
    &&& !defined_before(defined, items, n).contains(used)
}

/// A reported reference is one to a function that no earlier item defines.
pub proof fn reported_reference_is_forward(defined: Set<Seq<char>>, items: List<Item>)
    ensures
        checked(defined, items).1 matches Some((user, used)) ==> exists|n: int| #[trigger]
            is_forward_reference(defined, items@, n, user, used),
    decreases items,
{
    if let List::Cons(item, rest) = items {
        let all = items@;
        let after = defined.union(item_defines(item));
        assert(all[0] == item);
        assert(all.drop_first() =~= rest@);
        lemma_undefined(item_calls(item), defined);
        if let Some((user, used)) = checked(defined, items).1 {
            if first_undefined(item_calls(item), defined) is Some {
                assert(is_forward_reference(defined, all, 0, user, used));
            } else {
                reported_reference_is_forward(after, *rest);
                let n = choose|n: int| #[trigger]
                    is_forward_reference(after, rest@, n, user, used);
                lemma_defined_before(defined, all, n);
                assert(rest@[n] == all[n + 1]);
                assert(is_forward_reference(defined, all, n + 1, user, used));
            }
        }
    }
}

} // verus!
