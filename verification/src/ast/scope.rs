//! Scope for generating the abstract syntax tree.
use crate::ast::module::{
    are_collected, empty_module, imported_items, lemma_replaced_at, module_at, replaced_at,
    use_items, CollectedItems, ModuleScope, ModuleView,
};
use crate::ast::CustomFunction;
use crate::debug::{CallTracker, TrackedCallName};
use crate::error::{Error, ErrorView, Span};
use crate::jet::{Jet, JetHinter};
use crate::list::List;
use crate::name::{names, FunctionName, Identifier, ModuleName, WitnessName};
use crate::name_map::{contents, NameMap};
use crate::parse::{TypeAlias, UseDecl, UseItem, UseItems, Visibility};
use crate::types::{resolved, AliasedType, ResolvedType};
use crate::witness::{Parameters, WitnessTypes};
use vstd::prelude::*;

verus! {

/// Scope for generating the abstract syntax tree.
///
/// The scope is used for:
/// 1. Assigning types to each variable
/// 2. Resolving type aliases
/// 3. Assigning types to each witness expression
/// 4. Resolving calls to custom functions
#[derive(Debug)]
pub struct Scope<J> {
    /// Current position in the module tree. Push on `mod` enter, pop on exit.
    /// Empty path means we are at the root (main file) scope.
    pub position: Vec<ModuleName>,
    /// Global scope: the items from the main file that live at the root level.
    pub root: ModuleScope,
    /// Block-level variable scopes. Push on block enter, pop on block exit.
    pub variables: Vec<NameMap<ResolvedType>>,
    pub parameters: NameMap<ResolvedType>,
    pub witnesses: NameMap<ResolvedType>,
    pub is_main: bool,
    pub call_tracker: CallTracker,
    pub jet_hinter: J,
}

/// What a contract says of a scope.
#[verifier::ext_equal]
pub ghost struct ScopeView {
    /// The names of the modules that lead to the current module.
    pub position: Seq<Seq<char>>,
    /// The items of the whole program so far.
    pub root: ModuleView,
    /// The types of the variables of each block, innermost last.
    pub variables: Seq<Map<Seq<char>, ResolvedType>>,
    /// The types of the parameters of the program.
    pub parameters: Map<Seq<char>, ResolvedType>,
    /// The types of the witnesses of the program.
    pub witnesses: Map<Seq<char>, ResolvedType>,
    /// Whether the main function is analyzed.
    pub is_main: bool,
    /// The tracked calls.
    pub calls: Seq<(Span, TrackedCallName)>,
    /// The jets of the machine.
    pub jets: Map<Seq<char>, Jet>,
}

/// The variables of each block.
pub open spec fn blocks(variables: Seq<NameMap<ResolvedType>>) -> Seq<
    Map<Seq<char>, ResolvedType>,
> {
    Seq::new(variables.len(), |i: int| variables[i]@)
}

impl<J: JetHinter<Jet = Jet>> View for Scope<J> {
    type V = ScopeView;

    open spec fn view(&self) -> ScopeView {
        ScopeView {
            position: names(self.position@),
            root: self.root@,
            variables: blocks(self.variables@),
            parameters: self.parameters@,
            witnesses: self.witnesses@,
            is_main: self.is_main,
            calls: self.call_tracker@,
            jets: self.jet_hinter.jets(),
        }
    }
}

/// The type of a variable: that of the innermost block that defines it.
pub open spec fn variable_type(
    variables: Seq<Map<Seq<char>, ResolvedType>>,
    name: Seq<char>,
) -> Option<ResolvedType>
    decreases variables.len(),
{
    if variables.len() == 0 {
        None
    } else if variables.last().contains_key(name) {
        Some(variables.last()[name])
    } else {
        variable_type(variables.drop_last(), name)
    }
}

/// The number of names that two paths have in common at their start.
pub open spec fn common_prefix_len(a: Seq<Seq<char>>, b: Seq<Seq<char>>) -> nat
    decreases a.len(),
{
    if a.len() > 0 && b.len() > 0 && a[0] == b[0] {
        1 + common_prefix_len(a.drop_first(), b.drop_first())
    } else {
        0
    }
}

/// The module that a path leads to from `module`, or the reason why the path leads nowhere.
///
/// `depth` modules were entered already. The first `shared` modules after the root are open
/// to the importing module, and so is the next one: it is a sibling. Beyond these, private
/// modules are closed.
pub open spec fn navigated(
    module: ModuleView,
    path: Seq<Seq<char>>,
    depth: nat,
    shared: nat,
) -> Result<ModuleView, ErrorView>
    decreases path.len(),
{
    if path.len() == 0 {
        Ok(module)
    } else if !module.submodules.contains_key(path[0]) {
        Err(Error::ModuleNotFound(path[0]))
    } else if module.submodules[path[0]].1 == Visibility::Private && shared < depth {
        Err(Error::ModuleIsPrivate(path[0]))
    } else {
        navigated(module.submodules[path[0]].0, path.drop_first(), depth + 1, shared)
    }
}

/// Whether an item is imported under the name of the main function.
pub open spec fn is_aliased_to_main(item: UseItem) -> bool {
    item.alias matches Some(alias) && alias@ == "main"@
}

impl ScopeView {
    /// The scope before anything was analyzed.
    pub open spec fn initial(jets: Map<Seq<char>, Jet>) -> ScopeView {
        ScopeView {
            position: Seq::empty(),
            root: empty_module(),
            variables: Seq::empty(),
            parameters: Map::empty(),
            witnesses: Map::empty(),
            is_main: false,
            calls: Seq::empty(),
            jets,
        }
    }

    /// The module path leads to a module.
    pub open spec fn valid(self) -> bool {
        module_at(self.root, self.position) is Some
    }

    /// The items of the current module.
    pub open spec fn current(self) -> ModuleView {
        module_at(self.root, self.position)->0
    }

    /// The scope with the items of the current module replaced.
    pub open spec fn with_current(self, module: ModuleView) -> ScopeView {
        ScopeView { root: replaced_at(self.root, self.position, module), ..self }
    }

    /// The scope inside a new block.
    pub open spec fn in_block(self) -> ScopeView {
        ScopeView { variables: self.variables.push(Map::empty()), ..self }
    }

    /// The scope after the innermost block.
    pub open spec fn after_block(self) -> ScopeView {
        ScopeView { variables: self.variables.drop_last(), ..self }
    }

    /// The scope inside the main function.
    pub open spec fn in_main(self) -> ScopeView {
        ScopeView { is_main: true, ..self.in_block() }
    }

    /// The scope after the main function.
    pub open spec fn after_main(self) -> ScopeView {
        ScopeView { is_main: false, ..self.after_block() }
    }

    /// The scope inside a new module of the current module.
    pub open spec fn in_module(self, name: Seq<char>, visibility: Visibility) -> ScopeView {
        let current = self.current();
        ScopeView {
            position: self.position.push(name),
            ..self.with_current(
                ModuleView {
                    submodules: current.submodules.insert(name, (empty_module(), visibility)),
                    ..current
                },
            )
        }
    }

    /// The scope after the current module.
    pub open spec fn after_module(self) -> ScopeView {
        ScopeView { position: self.position.drop_last(), ..self }
    }

    /// The scope with a variable in the innermost block.
    pub open spec fn with_variable(self, name: Seq<char>, ty: ResolvedType) -> ScopeView {
        self.with_variables(map![name => ty])
    }

    /// The scope with variables in the innermost block.
    pub open spec fn with_variables(self, bindings: Map<Seq<char>, ResolvedType>) -> ScopeView {
        ScopeView {
            variables: self.variables.drop_last().push(
                self.variables.last().union_prefer_right(bindings),
            ),
            ..self
        }
    }

    /// The type without aliases that a type stands for.
    pub open spec fn resolved(self, ty: AliasedType) -> Result<ResolvedType, ErrorView> {
        match resolved(ty, self.current().aliases) {
            Ok(t) => Ok(t),
            Err(name) => Err(Error::UndefinedAlias(name)),
        }
    }

    /// The scope after a call was tracked.
    pub open spec fn with_call(self, span: Span, name: TrackedCallName) -> ScopeView {
        ScopeView { calls: self.calls.push((span, name)), ..self }
    }

    /// The outcome of the definition of a type alias.
    pub open spec fn with_alias(self, alias: TypeAlias) -> (Result<(), ErrorView>, ScopeView) {
        let current = self.current();
        if current.aliases.contains_key(alias.name@) {
            (Err(Error::RedefinedAlias(alias.name@)), self)
        } else {
            match self.resolved(alias.ty) {
                Err(e) => (Err(e), self),
                Ok(ty) => (
                    Ok(()),
                    self.with_current(
                        ModuleView {
                            aliases: current.aliases.insert(
                                alias.name@,
                                (ty, alias.visibility),
                            ),
                            ..current
                        },
                    ),
                ),
            }
        }
    }

    /// The outcome of the definition of a function.
    pub open spec fn with_function(
        self,
        name: Seq<char>,
        visibility: Visibility,
        function: CustomFunction,
    ) -> (Result<(), ErrorView>, ScopeView) {
        let current = self.current();
        if current.functions.contains_key(name) {
            (Err(Error::FunctionRedefined(name)), self)
        } else {
            (
                Ok(()),
                self.with_current(
                    ModuleView {
                        functions: current.functions.insert(name, (function, visibility)),
                        ..current
                    },
                ),
            )
        }
    }

    /// The definition of a function, or an error if it is not defined.
    pub open spec fn function(self, name: Seq<char>) -> Result<CustomFunction, ErrorView> {
        if self.current().functions.contains_key(name) {
            Ok(self.current().functions[name].0)
        } else {
            Err(Error::FunctionUndefined(name))
        }
    }

    /// The outcome of the use of a parameter of the program.
    pub open spec fn with_parameter(self, name: Seq<char>, ty: ResolvedType) -> (
        Result<(), ErrorView>,
        ScopeView,
    ) {
        if !self.parameters.contains_key(name) {
            (Ok(()), ScopeView { parameters: self.parameters.insert(name, ty), ..self })
        } else if self.parameters[name] == ty {
            (Ok(()), self)
        } else {
            (Err(Error::ExpressionTypeMismatch(self.parameters[name], ty)), self)
        }
    }

    /// The outcome of the use of a witness.
    pub open spec fn with_witness(self, name: Seq<char>, ty: ResolvedType) -> (
        Result<(), ErrorView>,
        ScopeView,
    ) {
        if !self.is_main {
            (Err(Error::WitnessOutsideMain), self)
        } else if self.witnesses.contains_key(name) {
            (Err(Error::WitnessReused(name)), self)
        } else {
            (Ok(()), ScopeView { witnesses: self.witnesses.insert(name, ty), ..self })
        }
    }

    /// The outcome of an import.
    pub open spec fn with_use(self, decl: UseDecl) -> (Result<(), ErrorView>, ScopeView) {
        let path = names(decl.path@);
        let items = use_items(decl.items);
        if path.len() == 0 || path[0] != "crate"@ {
            (Err(Error::MissingCrateKeyword), self)
        } else {
            let shared = common_prefix_len(self.position, path.drop_first());
            match navigated(self.root, path.drop_first(), 0, shared) {
                Err(e) => (Err(e), self),
                Ok(source) => if exists|i: int|
                    0 <= i < items.len() && is_aliased_to_main(#[trigger] items[i]) {
                    (Err(Error::MainCannotBeAlias), self)
                } else {
                    let outcome = imported_items(
                        source,
                        self.current(),
                        items,
                        decl.visibility,
                    );
                    (outcome.0, self.with_current(outcome.1))
                },
            }
        }
    }
}

/// What a contract says of the outcome of an update of a scope.
pub open spec fn is_update(
    result: Result<(), Error>,
    after: ScopeView,
    expected: (Result<(), ErrorView>, ScopeView),
) -> bool {
    &&& after == expected.1
    &&& match result {
        Ok(_) => expected.0 is Ok,
        Err(e) => expected.0 == Err::<(), ErrorView>(e@),
    }
}

impl<J: JetHinter<Jet = Jet>> Scope<J> {
    /// Create the scope before anything was analyzed.
    pub fn new(jet_hinter: J) -> (scope: Scope<J>)
        ensures
            scope@ == ScopeView::initial(jet_hinter.jets()),
            scope@.valid(),
    {
        let scope = Scope {
            position: Vec::new(),
            root: ModuleScope::new(),
            variables: Vec::new(),
            parameters: NameMap::new(),
            witnesses: NameMap::new(),
            is_main: false,
            call_tracker: CallTracker::new(),
            jet_hinter,
        };
        assert(scope@ =~= ScopeView::initial(jet_hinter.jets()));
        scope
    }

    /// Check whether no function is analyzed.
    pub fn is_outside_function(&self) -> (result: bool)
        ensures
            result == (self@.variables.len() == 0),
    {
        self.variables.len() == 0
    }

    /// Enter a new block inside the current function.
    pub fn enter_block(&mut self)
        ensures
            final(self)@ == old(self)@.in_block(),
    {
        self.variables.push(NameMap::new());
        assert(self@.variables =~= old(self)@.in_block().variables);
    }

    /// Push the scope of the main function onto the stack.
    pub fn enter_main(&mut self)
        requires
            !old(self)@.is_main,
            old(self)@.variables.len() == 0,
        ensures
            final(self)@ == old(self)@.in_main(),
    {
        self.enter_block();
        self.is_main = true;
    }

    /// Exit the current block inside the current function.
    pub fn exit_block(&mut self)
        requires
            old(self)@.variables.len() > 0,
        ensures
            final(self)@ == old(self)@.after_block(),
    {
        let _ = self.variables.pop();
        assert(self@.variables =~= old(self)@.after_block().variables);
    }

    /// Pop the scope of the main function from the stack.
    pub fn exit_main(&mut self)
        requires
            old(self)@.is_main,
            old(self)@.variables.len() == 1,
        ensures
            final(self)@ == old(self)@.after_main(),
            final(self)@.variables.len() == 0,
    {
        self.exit_block();
        self.is_main = false;
    }

    /// Get the items of the current module.
    fn current_module(&self) -> (module: &ModuleScope)
        requires
            self@.valid(),
        ensures
            module@ == self@.current(),
    {
        assert(names(self.position@).skip(0) =~= self@.position);
        self.root.at(&self.position, 0)
    }

    /// Get the items of the current module, for an update.
    fn current_module_mut(&mut self) -> (module: &mut ModuleScope)
        requires
            old(self)@.valid(),
        ensures
            module@ == old(self)@.current(),
            final(self)@ == old(self)@.with_current(final(module)@),
            final(self)@.valid(),
    {
        proof {
            assert(names(self.position@).skip(0) =~= self@.position);
            assert forall|new: ModuleView| #[trigger]
                old(self)@.with_current(new).valid() by {
                lemma_replaced_at(old(self)@.root, old(self)@.position, new);
            }
        }
        self.root.at_mut(&self.position, 0)
    }

    /// Enter a named module, pushing it onto the module path.
    ///
    /// ## Errors
    ///
    /// * [`Error::ModuleRedefined`] A module with this name is already defined in the current
    ///   scope.
    pub fn enter_module(&mut self, name: ModuleName, visibility: Visibility) -> (result: Result<
        (),
        Error,
    >)
        requires
            old(self)@.valid(),
        ensures
            final(self)@.valid(),
            match result {
                Ok(_) => !old(self)@.current().submodules.contains_key(name@) && final(self)@
                    == old(self)@.in_module(name@, visibility),
                Err(e) => {
                    &&& old(self)@.current().submodules.contains_key(name@)
                    &&& e@ == ErrorView::ModuleRedefined(name@)
                    &&& final(self)@ == old(self)@
                },
            },
    {
        if self.current_module().get_submodule(&name).is_some() {
            return Err(Error::ModuleRedefined(name.text));
        }
        let current = self.current_module_mut();
        current.insert_submodule(name.clone(), ModuleScope::new(), visibility);
        let ghost before = *self;
        self.position.push(name);
        proof {
            assert(self@.position =~= old(self)@.position.push(name@));
            let current = old(self)@.current();
            lemma_replaced_at(
                old(self)@.root,
                old(self)@.position,
                ModuleView {
                    submodules: current.submodules.insert(name@, (empty_module(), visibility)),
                    ..current
                },
            );
            lemma_enter(before@.root, before@.position, name@);
        }
        Ok(())
    }

    /// Exit the current module, popping it from the module path.
    pub fn exit_module(&mut self)
        requires
            old(self)@.valid(),
            old(self)@.position.len() > 0,
        ensures
            final(self)@ == old(self)@.after_module(),
            final(self)@.valid(),
    {
        let _ = self.position.pop();
        proof {
            assert(self@.position =~= old(self)@.after_module().position);
            lemma_prefix_valid(old(self)@.root, old(self)@.position);
        }
    }

    /// Count the names that the current position and a path, without its first name, have in
    /// common at their start.
    fn shared_prefix_len(&self, path: &Vec<Identifier>) -> (n: usize)
        requires
            path.len() > 0,
        ensures
            n == common_prefix_len(self@.position, names(path@).drop_first()),
    {
        let ghost here = self@.position;
        let ghost there = names(path@).drop_first();
        let mut n: usize = 0;
        assert(here.skip(0) =~= here && there.skip(0) =~= there);
        while n < self.position.len() && n + 1 < path.len() && self.position[n].same(&path[n + 1])
            invariant
                here == self@.position,
                there == names(path@).drop_first(),
                n <= here.len(),
                n <= there.len(),
                path.len() > 0,
                common_prefix_len(here, there) == n + common_prefix_len(
                    here.skip(n as int),
                    there.skip(n as int),
                ),
            decreases self.position.len() - n,
        {
            assert(here.skip(n as int)[0] == here[n as int]);
            assert(there.skip(n as int)[0] == there[n as int]);
            assert(here.skip(n as int).drop_first() =~= here.skip(n + 1));
            assert(there.skip(n as int).drop_first() =~= there.skip(n + 1));
            n = n + 1;
        }
        assert(n < here.len() ==> here.skip(n as int)[0] == here[n as int]);
        assert(n < there.len() ==> there.skip(n as int)[0] == there[n as int]);
        n
    }

    /// Resolves a `use` declaration by navigating the module tree, checking visibility,
    /// and importing matching items into the current scope.
    ///
    /// ## Errors
    ///
    /// * [`Error::MissingCrateKeyword`] The import path does not start with the `crate` keyword.
    /// * [`Error::ModuleNotFound`] A module segment in the target path does not exist.
    /// * [`Error::ModuleIsPrivate`] Attempted to navigate into a private module from an
    ///   unauthorized scope.
    /// * [`Error::MainCannotBeAlias`] Attempted to alias an imported item to the reserved `main`
    ///   identifier.
    /// * May also return errors propagated from item collection and insertion, such as
    ///   [`Error::PrivateItem`] or [`Error::RedefinedItem`].
    pub fn resolve_use(&mut self, use_decl: &UseDecl) -> (result: Result<(), Error>)
        requires
            old(self)@.valid(),
        ensures
            final(self)@.valid(),
            is_update(result, final(self)@, old(self)@.with_use(*use_decl)),
    {
        let path = &use_decl.path;
        if path.len() == 0 || !path[0].is("crate") {
            assert(names(path@).len() > 0 ==> names(path@)[0] == path@[0]@);
            return Err(Error::MissingCrateKeyword);
        }
        assert(names(path@).skip(1) =~= names(path@).drop_first());
        // Navigate to the target and collect the items before the current module is changed.
        let shared: usize = self.shared_prefix_len(path);
        let target = navigate(&self.root, path, 1, shared)?;
        let ghost source = target@;
        let collected = match collect_all(target, &use_decl.items, use_decl.visibility) {
            Some(collected) => collected,
            None => {
                return Err(Error::MainCannotBeAlias);
            },
        };
        let ghost items = use_items(use_decl.items);
        insert_all(
            self.current_module_mut(),
            collected,
            Ghost(source),
            Ghost(items),
            Ghost(use_decl.visibility),
        )
    }

    /// Insert a variable into the current block.
    pub fn insert_variable(&mut self, identifier: Identifier, ty: ResolvedType)
        requires
            old(self)@.variables.len() > 0,
        ensures
            final(self)@ == old(self)@.with_variable(identifier@, ty),
    {
        let last: usize = self.variables.len() - 1;
        self.variables[last].insert(identifier, ty);
        proof {
            let bindings = map![identifier@ => ty];
            assert(old(self)@.variables.last().insert(identifier@, ty)
                =~= old(self)@.variables.last().union_prefer_right(bindings));
            assert(self@.variables =~= old(self)@.with_variable(identifier@, ty).variables);
        }
    }

    /// Insert the variables of a list of entries into the current block.
    fn insert_entries(&mut self, entries: List<(Identifier, ResolvedType)>)
        requires
            old(self)@.variables.len() > 0,
        ensures
            final(self)@ == old(self)@.with_variables(contents(entries)),
        decreases entries,
    {
        match entries {
            List::Nil => {
                assert(self@.variables =~= self@.with_variables(contents(entries)).variables) by {
                    assert(self@.variables.last().union_prefer_right(Map::empty())
                        =~= self@.variables.last());
                }
            },
            List::Cons(entry, tail) => {
                self.insert_entries(*tail);
                self.insert_variable(entry.0, entry.1);
                proof {
                    let before = old(self)@.variables.last();
                    assert(before.union_prefer_right(contents(*tail)).union_prefer_right(
                        map![entry.0@ => entry.1],
                    ) =~= before.union_prefer_right(contents(entries)));
                    assert(self@.variables =~= old(self)@.with_variables(
                        contents(entries),
                    ).variables);
                }
            },
        }
    }

    /// Insert variables into the current block.
    pub fn insert_variables(&mut self, bindings: NameMap<ResolvedType>)
        requires
            old(self)@.variables.len() > 0,
        ensures
            final(self)@ == old(self)@.with_variables(bindings@),
    {
        self.insert_entries(bindings.entries)
    }

    /// Get the type of the variable.
    pub fn get_variable(&self, identifier: &Identifier) -> (result: Option<&ResolvedType>)
        ensures
            match result {
                Some(ty) => variable_type(self@.variables, identifier@) == Some(*ty),
                None => variable_type(self@.variables, identifier@) is None,
            },
    {
        let mut n: usize = self.variables.len();
        assert(self@.variables.take(n as int) =~= self@.variables);
        while n > 0
            invariant
                n <= self.variables.len(),
                variable_type(self@.variables, identifier@) == variable_type(
                    self@.variables.take(n as int),
                    identifier@,
                ),
            decreases n,
        {
            assert(self@.variables.take(n as int).last() == self@.variables[n - 1]);
            assert(self@.variables.take(n as int).drop_last() =~= self@.variables.take(n - 1));
            n = n - 1;
            if let Some(ty) = self.variables[n].get(identifier) {
                return Some(ty);
            }
        }
        None
    }

    /// Resolve a type with aliases to a type without aliases.
    ///
    /// ## Errors
    ///
    /// * [`Error::UndefinedAlias`] An alias is not defined in the current module.
    pub fn resolve(&self, ty: &AliasedType) -> (result: Result<ResolvedType, Error>)
        requires
            self@.valid(),
        ensures
            match result {
                Ok(t) => self@.resolved(*ty) == Ok::<ResolvedType, ErrorView>(t),
                Err(e) => self@.resolved(*ty) == Err::<ResolvedType, ErrorView>(e@),
            },
    {
        match ty.resolve(&self.current_module().aliases) {
            Ok(t) => Ok(t),
            Err(name) => Err(Error::UndefinedAlias(name.text.clone())),
        }
    }

    /// Insert a type alias into the current module scope.
    ///
    /// ## Errors
    ///
    /// * [`Error::RedefinedAlias`] The alias name is already defined in the current scope.
    /// * [`Error::UndefinedAlias`] The aliased type refers to an alias that is not defined.
    pub fn insert_alias(&mut self, alias: TypeAlias) -> (result: Result<(), Error>)
        requires
            old(self)@.valid(),
        ensures
            final(self)@.valid(),
            is_update(result, final(self)@, old(self)@.with_alias(alias)),
    {
        if self.current_module().aliases.contains_key(&alias.name) {
            return Err(Error::RedefinedAlias(alias.name.text));
        }
        let resolved = self.resolve(&alias.ty)?;
        let current = self.current_module_mut();
        current.aliases.insert(alias.name, (resolved, alias.visibility));
        Ok(())
    }

    /// Insert a parameter into the global map.
    ///
    /// ## Errors
    ///
    /// * [`Error::ExpressionTypeMismatch`] A parameter of the same name has already been defined
    ///   as a different type.
    pub fn insert_parameter(&mut self, name: WitnessName, ty: ResolvedType) -> (result: Result<
        (),
        Error,
    >)
        ensures
            is_update(result, final(self)@, old(self)@.with_parameter(name@, ty)),
    {
        if let Some(known) = self.parameters.get(&name) {
            return if known.same(&ty) {
                Ok(())
            } else {
                Err(Error::ExpressionTypeMismatch(known.clone(), ty))
            };
        }
        self.parameters.insert(name, ty);
        Ok(())
    }

    /// Insert a witness into the global map.
    ///
    /// ## Errors
    ///
    /// * [`Error::WitnessOutsideMain`] The current scope is not inside the main function.
    /// * [`Error::WitnessReused`] A witness with the same name has already been defined.
    pub fn insert_witness(&mut self, name: WitnessName, ty: ResolvedType) -> (result: Result<
        (),
        Error,
    >)
        ensures
            is_update(result, final(self)@, old(self)@.with_witness(name@, ty)),
    {
        if !self.is_main {
            return Err(Error::WitnessOutsideMain);
        }
        if self.witnesses.contains_key(&name) {
            return Err(Error::WitnessReused(name.text));
        }
        self.witnesses.insert(name, ty);
        Ok(())
    }

    /// Consume the scope and return its contents:
    ///
    /// 1. The map of parameter types.
    /// 2. The map of witness types.
    /// 3. The function call tracker.
    pub fn destruct(self) -> (result: (Parameters, WitnessTypes, CallTracker))
        ensures
            result.0@ == self@.parameters,
            result.1@ == self@.witnesses,
            result.2@ == self@.calls,
    {
        (
            Parameters { types: self.parameters },
            WitnessTypes { types: self.witnesses },
            self.call_tracker,
        )
    }

    /// Insert a custom function into the current module.
    ///
    /// ## Errors
    ///
    /// * [`Error::FunctionRedefined`] The function has already been defined.
    pub fn insert_function(
        &mut self,
        name: FunctionName,
        visibility: Visibility,
        function: CustomFunction,
    ) -> (result: Result<(), Error>)
        requires
            old(self)@.valid(),
        ensures
            final(self)@.valid(),
            is_update(
                result,
                final(self)@,
                old(self)@.with_function(name@, visibility, function),
            ),
    {
        if self.current_module().functions.contains_key(&name) {
            return Err(Error::FunctionRedefined(name.text));
        }
        let current = self.current_module_mut();
        current.functions.insert(name, (function, visibility));
        Ok(())
    }

    /// Retrieves the definition of a custom function.
    ///
    /// ## Errors
    ///
    /// * [`Error::FunctionUndefined`] The function is not found in the current module.
    pub fn get_function(&self, name: &FunctionName) -> (result: Result<CustomFunction, Error>)
        requires
            self@.valid(),
        ensures
            match result {
                Ok(f) => self@.function(name@) == Ok::<CustomFunction, ErrorView>(f),
                Err(e) => self@.function(name@) == Err::<CustomFunction, ErrorView>(e@),
            },
    {
        match self.current_module().functions.get(name) {
            Some(entry) => Ok(entry.0.clone()),
            None => Err(Error::FunctionUndefined(name.text.clone())),
        }
    }

    /// Track a call expression with its span.
    pub fn track_call(&mut self, span: Span, name: TrackedCallName)
        ensures
            final(self)@ == old(self)@.with_call(span, name),
    {
        self.call_tracker.track_call(span, name);
    }
}

/// Check whether an item is imported under the name of the main function.
fn aliased_to_main(item: &UseItem) -> (result: bool)
    ensures
        result == is_aliased_to_main(*item),
{
    match &item.alias {
        Some(alias) => alias.is("main"),
        None => false,
    }
}

/// Get the module that the names from index `from` on lead to.
///
/// ## Errors
///
/// * [`Error::ModuleNotFound`] A module does not exist.
/// * [`Error::ModuleIsPrivate`] A module is closed to the importing module.
fn navigate<'a>(
    module: &'a ModuleScope,
    path: &Vec<Identifier>,
    from: usize,
    shared: usize,
) -> (result: Result<&'a ModuleScope, Error>)
    requires
        1 <= from <= path.len(),
    ensures
        ({
            let expected = navigated(
                module@,
                names(path@).skip(from as int),
                (from - 1) as nat,
                shared as nat,
            );
            match result {
                Ok(target) => expected == Ok::<ModuleView, ErrorView>(target@),
                Err(e) => expected == Err::<ModuleView, ErrorView>(e@),
            }
        }),
    decreases path.len() - from,
{
    if from == path.len() {
        return Ok(module);
    }
    assert(names(path@).skip(from as int)[0] == path@[from as int]@);
    assert(names(path@).skip(from as int).drop_first() =~= names(path@).skip(from + 1));
    match module.get_submodule(&path[from]) {
        None => Err(Error::ModuleNotFound(path[from].text.clone())),
        Some(entry) => {
            if entry.1 == Visibility::Private && shared < from - 1 {
                return Err(Error::ModuleIsPrivate(path[from].text.clone()));
            }
            navigate(entry.0, path, from + 1, shared)
        },
    }
}

/// Prepare items for import, unless one of them is imported under the name of the main function.
fn collect_all(target: &ModuleScope, use_decl_items: &UseItems, use_vis: Visibility) -> (result:
    Option<Vec<CollectedItems>>)
    ensures
        ({
            let items = use_items(*use_decl_items);
            match result {
                Some(collected) => {
                    &&& collected@.len() == items.len()
                    &&& forall|i: int|
                        0 <= i < items.len() ==> !is_aliased_to_main(#[trigger] items[i])
                    &&& forall|i: int|
                        0 <= i < items.len() ==> #[trigger] are_collected(
                            collected@[i],
                            target@,
                            items[i],
                            use_vis,
                        )
                },
                None => exists|i: int|
                    0 <= i < items.len() && is_aliased_to_main(#[trigger] items[i]),
            }
        }),
{
    let mut collected: Vec<CollectedItems> = Vec::new();
    match use_decl_items {
        UseItems::Single(item) => {
            if aliased_to_main(item) {
                assert(use_items(*use_decl_items)[0] == *item);
                return None;
            }
            collected.push(target.collect(item, use_vis));
        },
        UseItems::List(items) => {
            let mut i: usize = 0;
            while i < items.len()
                invariant
                    i <= items.len(),
                    collected.len() == i,
                    use_items(*use_decl_items) == items@,
                    forall|j: int| 0 <= j < i ==> !is_aliased_to_main(#[trigger] items@[j]),
                    forall|j: int|
                        0 <= j < i ==> #[trigger] are_collected(
                            collected@[j],
                            target@,
                            items@[j],
                            use_vis,
                        ),
                decreases items.len() - i,
            {
                if aliased_to_main(&items[i]) {
                    assert(use_items(*use_decl_items)[i as int] == items@[i as int]);
                    return None;
                }
                collected.push(target.collect(&items[i], use_vis));
                i = i + 1;
            }
        },
    }
    Some(collected)
}

/// Insert collected items into a module, one after the other up to the first error.
fn insert_all(
    module: &mut ModuleScope,
    collected: Vec<CollectedItems>,
    source: Ghost<ModuleView>,
    items: Ghost<Seq<UseItem>>,
    visibility: Ghost<Visibility>,
) -> (result: Result<(), Error>)
    requires
        collected.len() == items@.len(),
        forall|i: int|
            0 <= i < items@.len() ==> #[trigger] are_collected(
                collected@[i],
                source@,
                items@[i],
                visibility@,
            ),
    ensures
        ({
            let expected = imported_items(source@, old(module)@, items@, visibility@);
            &&& final(module)@ == expected.1
            &&& match result {
                Ok(_) => expected.0 is Ok,
                Err(e) => expected.0 == Err::<(), ErrorView>(e@),
            }
        }),
{
    let ghost n = items@.len();
    assert(items@.skip(0) =~= items@);
    for entry in it: collected
        invariant
            n == items@.len(),
            it.seq() == collected@,
            collected.len() == n,
            imported_items(source@, old(module)@, items@, visibility@) == imported_items(
                source@,
                module@,
                items@.skip(it.index() as int),
                visibility@,
            ),
            forall|i: int|
                0 <= i < n ==> #[trigger] are_collected(
                    collected@[i],
                    source@,
                    items@[i],
                    visibility@,
                ),
    {
        let ghost i = it.index() as int;
        assert(are_collected(collected@[i], source@, items@[i], visibility@));
        assert(items@.skip(i)[0] == items@[i]);
        assert(items@.skip(i).drop_first() =~= items@.skip(i + 1));
        module.insert_items(entry)?;
    }
    Ok(())
}

/// A new module can be entered.
pub proof fn lemma_enter(root: ModuleView, path: Seq<Seq<char>>, name: Seq<char>)
    requires
        module_at(root, path) is Some,
        module_at(root, path)->0.submodules.contains_key(name),
    ensures
        module_at(root, path.push(name)) == Some(module_at(root, path)->0.submodules[name].0),
    decreases path.len(),
{
    if path.len() > 0 {
        lemma_enter(root.submodules[path[0]].0, path.drop_first(), name);
        assert(path.push(name).drop_first() =~= path.drop_first().push(name));
    } else {
        reveal_with_fuel(module_at, 2);
        assert(path.push(name).drop_first() =~= Seq::empty());
    }
}

/// Each module lies in a module.
pub proof fn lemma_prefix_valid(root: ModuleView, path: Seq<Seq<char>>)
    requires
        module_at(root, path) is Some,
        path.len() > 0,
    ensures
        module_at(root, path.drop_last()) is Some,
    decreases path.len(),
{
    if path.len() > 1 {
        lemma_prefix_valid(root.submodules[path[0]].0, path.drop_first());
        assert(path.drop_last().drop_first() =~= path.drop_first().drop_last());
    }
}

} // verus!
