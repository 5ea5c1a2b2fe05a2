//! Which errors the analysis of a program reports.
use crate::ast::import_laws::is_public;
use crate::ast::meaning::{definitions, is_type};
use crate::ast::meaning_laws::resolved_type_replaces_aliases;
use crate::ast::module::module_at;
use crate::ast::rules::{
    assignment, call, checked_arguments, custom_function, expression, function, item, main_function,
    match_, single_inner, statements,
};
use crate::ast::scope::{common_prefix_len, navigated, ScopeView};
use crate::ast::signature_laws::{can_fold, can_loop};
use crate::ast::typing_laws::visible;
use crate::ast::CallName;
use crate::error::{rich, Error, ErrorView, RichErrorView, Span};
use crate::list::{clamp_to_usize, shared, List};
use crate::name::{names, Identifier, WitnessName};
use crate::parse;
use crate::parse::{UseDecl, UseItems, Visibility};
use crate::pattern::MatchPattern;
use crate::structure::structure;
use crate::types::{
    resolved, resolved_all, unit_type, AliasMap, AliasedType, ResolvedType,
};
use vstd::prelude::*;

verus! {

/// Whether a result is an error at a place.
pub open spec fn fails<T>(result: Result<T, RichErrorView>, error: ErrorView, span: Span) -> bool {
    result matches Err(e) && e == rich(error, span)
}

/// A variable that is not in scope is reported as undefined, and one of another type as a mismatch
/// of the expected type and that of the variable.
pub proof fn variable_errors(
    name: Identifier,
    span: Span,
    ty: ResolvedType,
    s: ScopeView,
)
    ensures
        ({
            let vars = visible(s.variables);
            let outcome = single_inner(
                parse::SingleExpressionInner::Variable(name),
                span,
                ty,
                s,
            ).0;
            &&& !vars.contains_key(name@) ==> fails(
                outcome,
                Error::UndefinedVariable(name@),
                span,
            )
            &&& vars.contains_key(name@) && vars[name@] != ty ==> fails(
                outcome,
                Error::ExpressionTypeMismatch(ty, vars[name@]),
                span,
            )
        }),
{
}

/// A witness outside of the main function and one that is used again are reported. So is a
/// parameter that is used at another type than before.
pub proof fn witness_errors(
    name: WitnessName,
    span: Span,
    ty: ResolvedType,
    s: ScopeView,
)
    ensures
        ({
            let witness = single_inner(
                parse::SingleExpressionInner::Witness(name),
                span,
                ty,
                s,
            ).0;
            let parameter = single_inner(
                parse::SingleExpressionInner::Parameter(name),
                span,
                ty,
                s,
            ).0;
            &&& !s.is_main ==> fails(witness, Error::WitnessOutsideMain, span)
            &&& s.is_main && s.witnesses.contains_key(name@) ==> fails(
                witness,
                Error::WitnessReused(name@),
                span,
            )
            &&& s.parameters.contains_key(name@) && s.parameters[name@] != ty ==> fails(
                parameter,
                Error::ExpressionTypeMismatch(s.parameters[name@], ty),
                span,
            )
        }),
{
}

/// An expression whose kind does not belong to the expected type is reported with that type: a
/// tuple, an array or a list also if the number of its elements does not fit. A truth value is
/// reported as a mismatch.
pub proof fn kind_errors(
    from: parse::SingleExpressionInner,
    span: Span,
    ty: ResolvedType,
    s: ScopeView,
)
    ensures
        ({
            let outcome = single_inner(from, span, ty, s).0;
            let is_unexpected = fails(outcome, Error::ExpressionUnexpectedType(ty), span);
            match from {
                parse::SingleExpressionInner::Boolean(_) => ty != ResolvedType::Boolean ==> fails(
                    outcome,
                    Error::ExpressionTypeMismatch(ty, ResolvedType::Boolean),
                    span,
                ),
                parse::SingleExpressionInner::Decimal(_) => !(ty is UInt) ==> is_unexpected,
                parse::SingleExpressionInner::Binary(_) => !(ty is UInt) ==> is_unexpected,
                parse::SingleExpressionInner::Hexadecimal(_) => !(ty is UInt) && !(ty is Array)
                    ==> is_unexpected,
                parse::SingleExpressionInner::Tuple(list) => !(ty matches ResolvedType::Tuple(tys)
                    && tys@.len() == list@.len()) ==> is_unexpected,
                parse::SingleExpressionInner::Array(list) => !(ty matches ResolvedType::Array(
                    _,
                    n,
                ) && list@.len() == n) ==> is_unexpected,
                parse::SingleExpressionInner::List(list) => !(ty matches ResolvedType::List(
                    _,
                    bound,
                ) && list@.len() < bound) ==> is_unexpected,
                parse::SingleExpressionInner::Either(_) => !(ty is Either) ==> is_unexpected,
                parse::SingleExpressionInner::Option(_) => !(ty is Option) ==> is_unexpected,
                _ => true,
            }
        }),
{
}

/// A block without a final expression returns nothing: where something else is expected, the
/// mismatch is reported.
pub proof fn block_errors(from: parse::Expression, ty: ResolvedType, s: ScopeView)
    ensures
        from.inner matches parse::ExpressionInner::Block(list, None) ==> {
            &&& statements(*list, s.in_block()).0 is Ok && ty != unit_type() ==> fails(
                expression(from, ty, s).0,
                Error::ExpressionTypeMismatch(ty, unit_type()),
                from.span,
            )
            &&& statements(*list, s.in_block()).0 matches Err(e) ==> expression(from, ty, s).0
                == Err::<crate::ast::Expression, RichErrorView>(e)
        },
{
}

/// A call of a name that cannot be called is reported at its place.
pub proof fn callee_errors(from: parse::Call, ty: ResolvedType, s: ScopeView)
    ensures
        ({
            let known = s.current().functions;
            let outcome = call(from, ty, s).0;
            match from.name {
                parse::CallName::Jet(name) => !(s.jets.contains_key(name@)
                    && !s.jets[name@].disabled) ==> fails(
                    outcome,
                    Error::JetDoesNotExist(name@),
                    from.span,
                ),
                parse::CallName::Custom(name) => !known.contains_key(name@) ==> fails(
                    outcome,
                    Error::FunctionUndefined(name@),
                    from.span,
                ),
                parse::CallName::Fold(name, _) => {
                    &&& !known.contains_key(name@) ==> fails(
                        outcome,
                        Error::FunctionUndefined(name@),
                        from.span,
                    )
                    &&& known.contains_key(name@) && !can_fold(known[name@].0) ==> fails(
                        outcome,
                        Error::FunctionNotFoldable(name@),
                        from.span,
                    )
                },
                parse::CallName::ArrayFold(name, _) => {
                    &&& !known.contains_key(name@) ==> fails(
                        outcome,
                        Error::FunctionUndefined(name@),
                        from.span,
                    )
                    &&& known.contains_key(name@) && !can_fold(known[name@].0) ==> fails(
                        outcome,
                        Error::FunctionNotFoldable(name@),
                        from.span,
                    )
                },
                parse::CallName::ForWhile(name) => {
                    &&& !known.contains_key(name@) ==> fails(
                        outcome,
                        Error::FunctionUndefined(name@),
                        from.span,
                    )
                    &&& known.contains_key(name@) && (forall|width: usize|
                        !#[trigger] can_loop(known[name@].0, width)) ==> fails(
                        outcome,
                        Error::FunctionNotLoopable(name@),
                        from.span,
                    )
                },
                _ => true,
            }
        }),
{
    if let parse::CallName::ForWhile(name) = from.name {
        if s.current().functions.contains_key(name@) {
            let f = s.current().functions[name@].0;
            if let Some(width) = crate::ast::rules::counter_width(f) {
                assert(can_loop(f, width));
            }
        }
    }
}

/// A call of a function of the program with another number of arguments than the function has
/// parameters is reported, and so is one that returns a value of another type than expected. A cast
/// between types of different structures is reported with both types.
pub proof fn argument_errors(name: CallName, arity: nat, ty: ResolvedType)
    ensures
        ({
            let outcome = checked_arguments(name, arity, ty);
            match name {
                CallName::Custom(f) => {
                    &&& arity != f.params@.len() ==> outcome == Err::<
                        List<ResolvedType>,
                        ErrorView,
                    >(
                        Error::InvalidNumberOfArguments(
                            clamp_to_usize(f.params@.len()),
                            clamp_to_usize(arity),
                        ),
                    )
                    &&& arity == f.params@.len() && f.body.ty != ty ==> outcome == Err::<
                        List<ResolvedType>,
                        ErrorView,
                    >(Error::ExpressionTypeMismatch(ty, f.body.ty))
                },
                CallName::TypeCast(source) => structure(source) != structure(ty) ==> outcome
                    == Err::<List<ResolvedType>, ErrorView>(
                    Error::InvalidCast(source, ty),
                ),
                CallName::Assert => arity == 1 && ty != unit_type() ==> outcome == Err::<
                    List<ResolvedType>,
                    ErrorView,
                >(Error::ExpressionTypeMismatch(ty, unit_type())),
                CallName::IsNone(_) => arity == 1 && ty != ResolvedType::Boolean ==> outcome
                    == Err::<List<ResolvedType>, ErrorView>(
                    Error::ExpressionTypeMismatch(ty, ResolvedType::Boolean),
                ),
                _ => true,
            }
        }),
{
    reveal_with_fuel(List::seq, 2);
    if let CallName::Custom(f) = name {
        lemma_param_types_len(shared(f.params));
    }
}

/// There is a type for each parameter.
proof fn lemma_param_types_len(params: List<crate::ast::FunctionParam>)
    ensures
        crate::ast::rules::param_types(params)@.len() == params@.len(),
    decreases params,
{
    if let List::Cons(_, tail) = params {
        lemma_param_types_len(*tail);
    }
}

/// Match arms that do not belong together are reported with both patterns.
pub proof fn match_errors(from: parse::Match, ty: ResolvedType, s: ScopeView)
    ensures
        match (from.left.pattern, from.right.pattern) {
            (MatchPattern::Left(_, _), MatchPattern::Right(_, _)) => true,
            (MatchPattern::Nothing, MatchPattern::Something(_, _)) => true,
            (MatchPattern::False, MatchPattern::True) => true,
            _ => fails(
                match_(from, ty, s).0,
                Error::IncompatibleMatchArms(from.left.pattern, from.right.pattern),
                from.span,
            ),
        },
{
}

/// A main function with parameters, one that returns something and a public one are reported.
pub proof fn main_errors(from: parse::Function, s: ScopeView, ret: ResolvedType)
    ensures
        ({
            let outcome = main_function(from, s).0;
            let is_returned = match from.ret {
                Some(aliased) => is_type(aliased, ret, definitions(s).aliases),
                None => ret == unit_type(),
            };
            &&& from.params@.len() > 0 ==> fails(outcome, Error::MainNoInputs, from.span)
            &&& from.params@.len() == 0 && is_returned && ret != unit_type() ==> fails(
                outcome,
                Error::MainNoOutput,
                from.span,
            )
            &&& from.params@.len() == 0 && is_returned && ret == unit_type() && from.visibility
                == Visibility::Public ==> fails(outcome, Error::MainCannotBePublic, from.span)
        }),
{
    if let Some(aliased) = from.ret {
        resolved_type_replaces_aliases(aliased, ret, s.current().aliases);
    }
}

/// Aliases, functions and modules whose name is taken are reported, and change nothing that is
/// defined.
pub proof fn redefinition_errors(from: parse::Item, s: ScopeView)
    ensures
        ({
            let (outcome, after) = item(from, s);
            match from {
                parse::Item::TypeAlias(alias) => s.current().aliases.contains_key(alias.name@)
                    ==> fails(outcome, Error::RedefinedAlias(alias.name@), alias.span) && after
                    == s,
                parse::Item::Module(module) => s.current().submodules.contains_key(module.name@)
                    ==> fails(outcome, Error::ModuleRedefined(module.name@), module.span) && after
                    == s,
                _ => true,
            }
        }),
{
}

/// A function whose name is taken is never accepted.
pub proof fn functions_are_not_redefined(from: parse::Function, s: ScopeView)
    requires
        s.valid(),
        s.current().functions.contains_key(from.name@),
    ensures
        custom_function(from, s).0 is Err,
{
    if custom_function(from, s).0 is Ok {
        crate::ast::meaning_laws::defined_function_keeps_meaning(from, s);
    }
}

/// An import whose path does not start with `crate` is reported. Of the names of a path, the first
/// one that is not that of a module is reported as missing, unless a private module before it is
/// closed.
pub proof fn import_path_errors(s: ScopeView, decl: UseDecl, k: int)
    ensures
        ({
            let path = names(decl.path@);
            let outcome = s.with_use(decl).0;
            &&& path.len() == 0 || path[0] != "crate"@ ==> outcome == Err::<(), ErrorView>(
                Error::MissingCrateKeyword,
            )
            &&& path.len() > 0 && path[0] == "crate"@ && is_stopped_at(
                s,
                path.drop_first(),
                k,
            ) ==> outcome == Err::<(), ErrorView>(
                if module_at(s.root, path.drop_first().take(k))->0.submodules.contains_key(
                    path[k + 1],
                ) {
                    Error::ModuleIsPrivate(path[k + 1])
                } else {
                    Error::ModuleNotFound(path[k + 1])
                },
            )
        }),
{
    let path = names(decl.path@).drop_first();
    if names(decl.path@).len() > 0 && is_stopped_at(s, path, k) {
        lemma_stopped(s.root, path, 0, common_prefix_len(s.position, path), k);
    }
}

/// Whether the names of a path lead through open modules up to a name that is not that of an open
/// module.
pub open spec fn is_stopped_at(s: ScopeView, path: Seq<Seq<char>>, k: int) -> bool {
    is_stopped(s.root, path, 0, common_prefix_len(s.position, path), k)
}

/// Whether a name leads to an open module.
pub open spec fn is_open(
    module: crate::ast::module::ModuleView,
    name: Seq<char>,
    depth: int,
    shared: nat,
) -> bool {
    module.submodules.contains_key(name) && (is_public(module.submodules, name) || depth <= shared)
}

/// Whether the names of a path lead through open modules up to a name that is not that of an open
/// module.
pub open spec fn is_stopped(
    root: crate::ast::module::ModuleView,
    path: Seq<Seq<char>>,
    depth: nat,
    shared: nat,
    k: int,
) -> bool {
    &&& 0 <= k < path.len()
    &&& forall|j: int|
        0 <= j <= k ==> (module_at(root, #[trigger] path.take(j)) matches Some(module) && (is_open(
            module,
            path[j],
            depth + j,
            shared,
        ) <==> j < k))
}

/// The name at which a path stops is reported.
proof fn lemma_stopped(
    root: crate::ast::module::ModuleView,
    path: Seq<Seq<char>>,
    depth: nat,
    shared: nat,
    k: int,
)
    requires
        is_stopped(root, path, depth, shared, k),
    ensures
        navigated(root, path, depth, shared) == Err::<
            crate::ast::module::ModuleView,
            ErrorView,
        >(
            if module_at(root, path.take(k))->0.submodules.contains_key(path[k]) {
                Error::ModuleIsPrivate(path[k])
            } else {
                Error::ModuleNotFound(path[k])
            },
        ),
    decreases k,
{
    assert(path.take(0) =~= Seq::empty());
    assert(module_at(root, path.take(0)) == Some(root));
    if k > 0 {
        let child = root.submodules[path[0]].0;
        let rest = path.drop_first();
        assert forall|j: int| 0 <= j < k implies module_at(root, #[trigger] path.take(j + 1))
            == module_at(child, rest.take(j)) by {
            assert(path.take(j + 1).drop_first() =~= rest.take(j));
            assert(path.take(j + 1)[0] == path[0]);
        }
        assert(is_open(root, path[0], depth as int, shared));
        assert forall|j: int| 0 <= j <= k - 1 implies (module_at(child, #[trigger] rest.take(j))
            matches Some(module) && (is_open(module, rest[j], depth + 1 + j, shared) <==> j < k
            - 1)) by {
            assert(module_at(root, path.take(j + 1)) == module_at(child, rest.take(j)));
            assert(rest[j] == path[j + 1]);
        }
        lemma_stopped(child, rest, depth + 1, shared, k - 1);
        assert(path.take((k - 1) + 1) == path.take(k));
        assert(rest[k - 1] == path[k]);
    }
}

/// An import under the name of the main function is reported if its path leads to a module.
pub proof fn main_alias_error(s: ScopeView, decl: UseDecl, i: int)
    requires
        names(decl.path@).len() > 0,
        names(decl.path@)[0] == "crate"@,
        navigated(
            s.root,
            names(decl.path@).drop_first(),
            0,
            common_prefix_len(s.position, names(decl.path@).drop_first()),
        ) is Ok,
        match decl.items {
            UseItems::Single(only) => only.alias is Some && only.alias->0@ == "main"@,
            UseItems::List(list) => 0 <= i < list@.len() && list@[i].alias is Some
                && list@[i].alias->0@ == "main"@,
        },
    ensures
        s.with_use(decl) == (Err::<(), ErrorView>(Error::MainCannotBeAlias), s),
{
    let items = crate::ast::module::use_items(decl.items);
    match decl.items {
        UseItems::Single(only) => {
            assert(crate::ast::scope::is_aliased_to_main(items[0]));
        },
        UseItems::List(_) => {
            assert(crate::ast::scope::is_aliased_to_main(items[i]));
        },
    }
}

/// The aliases in a type, in the order in which they are written.
pub open spec fn aliases_in(ty: AliasedType) -> Seq<Seq<char>>
    decreases ty,
{
    match ty {
        AliasedType::Alias(name) => seq![name@],
        AliasedType::Either(l, r) => aliases_in(*l) + aliases_in(*r),
        AliasedType::Option(t) => aliases_in(*t),
        AliasedType::Array(t, _) => aliases_in(*t),
        AliasedType::List(t, _) => aliases_in(*t),
        AliasedType::Tuple(ts) => aliases_in_all(*ts),
        _ => Seq::empty(),
    }
}

/// The aliases in types, in the order in which they are written.
pub open spec fn aliases_in_all(tys: List<AliasedType>) -> Seq<Seq<char>>
    decreases tys,
{
    match tys {
        List::Nil => Seq::empty(),
        List::Cons(head, tail) => aliases_in(head) + aliases_in_all(*tail),
    }
}

/// Whether a name is the first of some names that is not defined.
pub open spec fn is_first_undefined(
    names: Seq<Seq<char>>,
    aliases: AliasMap,
    name: Seq<char>,
    i: int,
) -> bool {
    &&& 0 <= i < names.len()
    &&& names[i] == name
    &&& !aliases.contains_key(name)
    &&& forall|j: int| 0 <= j < i ==> aliases.contains_key(#[trigger] names[j])
}

/// Whether the outcome of replacing aliases is as expected: the first name that is not defined, or
/// else a success.
pub open spec fn reports_first<T>(
    outcome: Result<T, Seq<char>>,
    names: Seq<Seq<char>>,
    aliases: AliasMap,
) -> bool {
    match outcome {
        Ok(_) => forall|j: int| 0 <= j < names.len() ==> aliases.contains_key(#[trigger] names[j]),
        Err(name) => exists|i: int| #[trigger] is_first_undefined(names, aliases, name, i),
    }
}

/// The first name that is not defined is reported.
proof fn lemma_reported<T>(
    outcome: Result<T, Seq<char>>,
    names: Seq<Seq<char>>,
    aliases: AliasMap,
    name: Seq<char>,
    i: int,
)
    requires
        is_first_undefined(names, aliases, name, i),
        outcome matches Err(n) && n == name,
    ensures
        reports_first(outcome, names, aliases),
{
    if let Err(n) = outcome {
        assert(is_first_undefined(names, aliases, n, i));
    }
}

/// What is reported of two groups of names.
proof fn lemma_groups<T, U, V>(
    first: Result<T, Seq<char>>,
    second: Result<U, Seq<char>>,
    both: Result<V, Seq<char>>,
    a: Seq<Seq<char>>,
    b: Seq<Seq<char>>,
    aliases: AliasMap,
)
    requires
        reports_first(first, a, aliases),
        reports_first(second, b, aliases),
        match (first, second) {
            (Err(name), _) => both matches Err(n) && n == name,
            (Ok(_), Err(name)) => both matches Err(n) && n == name,
            (Ok(_), Ok(_)) => both is Ok,
        },
    ensures
        reports_first(both, a + b, aliases),
{
    if let Err(name) = first {
        let i = choose|i: int| #[trigger] is_first_undefined(a, aliases, name, i);
        assert(is_first_undefined(a + b, aliases, name, i));
    } else if let Err(name) = second {
        let i = choose|i: int| #[trigger] is_first_undefined(b, aliases, name, i);
        assert forall|j: int| 0 <= j < a.len() + i implies aliases.contains_key(
            #[trigger] (a + b)[j],
        ) by {
            if j < a.len() {
                assert(aliases.contains_key(a[j]));
            } else {
                assert(aliases.contains_key(b[j - a.len()]));
            }
        }
        assert(is_first_undefined(a + b, aliases, name, a.len() + i));
    } else {
        assert forall|j: int| 0 <= j < (a + b).len() implies aliases.contains_key(
            #[trigger] (a + b)[j],
        ) by {
            if j < a.len() {
                assert(aliases.contains_key(a[j]));
            } else {
                assert(aliases.contains_key(b[j - a.len()]));
            }
        }
    }
}

/// A type has a meaning if and only if all aliases in it are defined. Otherwise the first alias
/// that is not defined is reported.
pub proof fn first_undefined_alias_is_reported(ty: AliasedType, aliases: AliasMap)
    ensures
        reports_first(resolved(ty, aliases), aliases_in(ty), aliases),
    decreases ty,
{
    match ty {
        AliasedType::Alias(name) => {
            assert(aliases_in(ty) =~= seq![name@]);
            assert(aliases_in(ty)[0] == name@);
            if !aliases.contains_key(name@) {
                lemma_reported(resolved(ty, aliases), aliases_in(ty), aliases, name@, 0);
            }
        },
        AliasedType::Either(l, r) => {
            let (l, r) = (shared(l), shared(r));
            first_undefined_alias_is_reported(l, aliases);
            first_undefined_alias_is_reported(r, aliases);
            lemma_groups(
                resolved(l, aliases),
                resolved(r, aliases),
                resolved(ty, aliases),
                aliases_in(l),
                aliases_in(r),
                aliases,
            );
        },
        AliasedType::Option(t) => {
            let t = shared(t);
            first_undefined_alias_is_reported(t, aliases);
            assert(aliases_in(ty) == aliases_in(t));
            if let Err(name) = resolved(t, aliases) {
                let i = choose|i: int| #[trigger]
                    is_first_undefined(aliases_in(t), aliases, name, i);
                lemma_reported(resolved(ty, aliases), aliases_in(ty), aliases, name, i);
            }
        },
        AliasedType::Array(t, _) => {
            let t = shared(t);
            first_undefined_alias_is_reported(t, aliases);
            assert(aliases_in(ty) == aliases_in(t));
            if let Err(name) = resolved(t, aliases) {
                let i = choose|i: int| #[trigger]
                    is_first_undefined(aliases_in(t), aliases, name, i);
                lemma_reported(resolved(ty, aliases), aliases_in(ty), aliases, name, i);
            }
        },
        AliasedType::List(t, _) => {
            let t = shared(t);
            first_undefined_alias_is_reported(t, aliases);
            assert(aliases_in(ty) == aliases_in(t));
            if let Err(name) = resolved(t, aliases) {
                let i = choose|i: int| #[trigger]
                    is_first_undefined(aliases_in(t), aliases, name, i);
                lemma_reported(resolved(ty, aliases), aliases_in(ty), aliases, name, i);
            }
        },
        AliasedType::Tuple(ts) => {
            let ts = shared(ts);
            lemma_all_reported(ts, aliases);
            assert(aliases_in(ty) == aliases_in_all(ts));
            if let Err(name) = resolved_all(ts, aliases) {
                let i = choose|i: int| #[trigger]
                    is_first_undefined(aliases_in_all(ts), aliases, name, i);
                lemma_reported(resolved(ty, aliases), aliases_in(ty), aliases, name, i);
            }
        },
        _ => {},
    }
}

/// The first alias in types that is not defined is reported.
proof fn lemma_all_reported(tys: List<AliasedType>, aliases: AliasMap)
    ensures
        reports_first(resolved_all(tys, aliases), aliases_in_all(tys), aliases),
    decreases tys,
{
    if let List::Cons(head, tail) = tys {
        first_undefined_alias_is_reported(head, aliases);
        lemma_all_reported(*tail, aliases);
        lemma_groups(
            resolved(head, aliases),
            resolved_all(*tail, aliases),
            resolved_all(tys, aliases),
            aliases_in(head),
            aliases_in_all(*tail),
            aliases,
        );
    }
}

/// An alias that is not defined is reported at the place of the assignment, of the definition of
/// the alias, or of the function whose return type mentions it.
pub proof fn undefined_aliases_are_reported(
    a: parse::Assignment,
    alias: parse::TypeAlias,
    f: parse::Function,
    s: ScopeView,
    name: Seq<char>,
    i: int,
)
    ensures
        is_first_undefined(aliases_in(a.ty), s.current().aliases, name, i) ==> fails(
            assignment(a, s).0,
            Error::UndefinedAlias(name),
            a.span,
        ),
        is_first_undefined(aliases_in(alias.ty), s.current().aliases, name, i)
            && !s.current().aliases.contains_key(alias.name@) ==> fails(
            item(parse::Item::TypeAlias(alias), s).0,
            Error::UndefinedAlias(name),
            alias.span,
        ),
        f.params@.len() == 0 && (f.ret matches Some(ty) && is_first_undefined(
            aliases_in(ty),
            s.current().aliases,
            name,
            i,
        )) ==> fails(function(f, s).0, Error::UndefinedAlias(name), f.span),
{
    let known = s.current().aliases;
    lemma_name(a.ty, known, name, i);
    lemma_name(alias.ty, known, name, i);
    if let Some(ty) = f.ret {
        lemma_name(ty, known, name, i);
    }
    assert(f.params@.len() == 0 ==> *f.params is Nil);
}

/// The name that is reported is the first one that is not defined.
proof fn lemma_name(ty: AliasedType, aliases: AliasMap, name: Seq<char>, i: int)
    ensures
        is_first_undefined(aliases_in(ty), aliases, name, i) ==> (resolved(ty, aliases) matches Err(
            n,
        ) && n == name),
{
    first_undefined_alias_is_reported(ty, aliases);
    if is_first_undefined(aliases_in(ty), aliases, name, i) {
        match resolved(ty, aliases) {
            Ok(_) => {
                assert(aliases.contains_key(aliases_in(ty)[i]));
            },
            Err(n) => {
                let j = choose|j: int| #[trigger]
                    is_first_undefined(aliases_in(ty), aliases, n, j);
                if j < i {
                    assert(aliases.contains_key(aliases_in(ty)[j]));
                } else if i < j {
                    assert(aliases.contains_key(aliases_in(ty)[i]));
                }
            },
        }
    }
}

} // verus!
