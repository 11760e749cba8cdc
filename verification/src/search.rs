//! A generic, short-circuiting walk over the design-unit tree.
//!
//! A [`Searcher`] is a capability set of optional hooks, one per meaningful
//! node kind.  A hook may finish the whole walk with a result, prune the
//! subtree under the node, or decline, in which case the walk recurses
//! structurally with the same searcher.  The walk order is deterministic
//! pre-order: generic clause, port clause, declarations, then statements;
//! nested declarative regions before their own statement bodies.
//!
//! The hooks of an arbitrary searcher are behaviourally unconstrained, so
//! nothing is proved about a walk with an arbitrary searcher beyond its
//! safety.  The hooks of [`ReferenceSearcher`] carry exact contracts; the
//! verified point queries of [`crate::query`] state the same cursor rules
//! over the occurrence model of [`crate::ast`].

use vstd::prelude::*;

use crate::ast::ArchitectureUnit;
use crate::ast::BlockStatement;
use crate::ast::ConcurrentStatement;
use crate::ast::ConfigurationUnit;
use crate::ast::Declaration;
use crate::ast::Designator;
use crate::ast::ElementDeclaration;
use crate::ast::EntityUnit;
use crate::ast::FunctionSpecification;
use crate::ast::GenerateBody;
use crate::ast::InterfaceDeclaration;
use crate::ast::LabeledConcurrentStatement;
use crate::ast::LabeledSequentialStatement;
use crate::ast::PackageBodyUnit;
use crate::ast::PackageInstanceUnit;
use crate::ast::PackageUnit;
use crate::ast::ProcedureSpecification;
use crate::ast::ProtectedTypeDeclarativeItem;
use crate::ast::SelectedName;
use crate::ast::Source;
use crate::ast::SrcPos;
use crate::ast::SubprogramDeclaration;
use crate::ast::SubtypeIndication;
use crate::ast::TypeDeclaration;
use crate::ast::TypeDefinition;

verus! {

/// Outcome of a completed walk.
#[must_use]
pub enum SearchResult<T> {
    Found(T),
    NotFound,
}

impl<T> SearchResult<T> {
    pub fn into_option(self) -> (r: Option<T>)
        ensures
            r == (match self {
                SearchResult::Found(value) => Some(value),
                SearchResult::NotFound => None::<T>,
            }),
    {
        match self {
            SearchResult::Found(value) => Some(value),
            SearchResult::NotFound => None,
        }
    }
}

/// What a hook tells the walk: finish everything with a result, or keep
/// going structurally.  `Finished(NotFound)` prunes the subtree under the
/// hooked node but continues with its siblings.
#[must_use]
pub enum SearchState<T> {
    Finished(SearchResult<T>),
    NotFinished,
}

impl<T> SearchState<T> {
    pub fn or_else<F: FnOnce() -> SearchResult<T>>(self, nested_fun: F) -> (r: SearchResult<T>)
        requires
            (self is NotFinished) ==> call_requires(nested_fun, ()),
        ensures
            (match self {
                SearchState::Finished(result) => r == result,
                SearchState::NotFinished => call_ensures(nested_fun, (), r),
            }),
    {
        match self {
            SearchState::Finished(result) => result,
            SearchState::NotFinished => nested_fun(),
        }
    }

    pub fn or_not_found(self) -> (r: SearchResult<T>)
        ensures
            (match self {
                SearchState::Finished(result) => r == result,
                SearchState::NotFinished => r is NotFound,
            }),
    {
        match self {
            SearchState::Finished(result) => result,
            SearchState::NotFinished => SearchResult::NotFound,
        }
    }
}

/// The hook set of a walk.  Every hook declines by default, which makes
/// the walk recurse into the node's children.
pub trait Searcher<T> {
    fn search_labeled_concurrent_statement(&mut self, _stmt: &LabeledConcurrentStatement)
        -> SearchState<T> {
        SearchState::NotFinished
    }

    fn search_labeled_sequential_statement(&mut self, _stmt: &LabeledSequentialStatement)
        -> SearchState<T> {
        SearchState::NotFinished
    }

    fn search_declaration(&mut self, _decl: &Declaration) -> SearchState<T> {
        SearchState::NotFinished
    }

    fn search_interface_declaration(&mut self, _decl: &InterfaceDeclaration) -> SearchState<T> {
        SearchState::NotFinished
    }

    fn search_subtype_indication(&mut self, _decl: &SubtypeIndication) -> SearchState<T> {
        SearchState::NotFinished
    }

    fn search_designator_ref(&mut self, _designator: &Designator) -> SearchState<T> {
        SearchState::NotFinished
    }

    fn search_with_pos(&mut self, _pos: &SrcPos) -> SearchState<T> {
        SearchState::NotFinished
    }

    fn search_source(&mut self, _source: &Source) -> SearchState<T> {
        SearchState::NotFinished
    }
}

/// Structural traversal of one node kind with an arbitrary searcher.
pub trait Search<T> {
    fn search(&self, searcher: &mut impl Searcher<T>) -> SearchResult<T>;
}

impl<T, V: Search<T>> Search<T> for Vec<V> {
    fn search(&self, searcher: &mut impl Searcher<T>) -> SearchResult<T> {
        let mut i: usize = 0;
        while i < self.len()
            decreases self.len() - i,
        {
            match self[i].search(searcher) {
                SearchResult::Found(value) => {
                    return SearchResult::Found(value);
                },
                SearchResult::NotFound => {},
            }
            i = i + 1;
        }
        SearchResult::NotFound
    }
}

impl<T, V: Search<T>> Search<T> for Option<V> {
    fn search(&self, searcher: &mut impl Searcher<T>) -> SearchResult<T> {
        match self {
            Some(value) => value.search(searcher),
            None => SearchResult::NotFound,
        }
    }
}

impl<T> Search<T> for LabeledSequentialStatement {
    fn search(&self, searcher: &mut impl Searcher<T>) -> SearchResult<T> {
        searcher.search_labeled_sequential_statement(self).or_not_found()
    }
}

impl<T> Search<T> for Designator {
    fn search(&self, searcher: &mut impl Searcher<T>) -> SearchResult<T> {
        match searcher.search_with_pos(&self.pos) {
            SearchState::Finished(result) => result,
            SearchState::NotFinished => searcher.search_designator_ref(self).or_not_found(),
        }
    }
}

impl<T> Search<T> for SelectedName {
    fn search(&self, searcher: &mut impl Searcher<T>) -> SearchResult<T> {
        match self {
            SelectedName::Qualified(qualified) => match searcher.search_with_pos(&qualified.pos) {
                SearchState::Finished(result) => result,
                SearchState::NotFinished => qualified.designator.search(searcher),
            },
            SelectedName::Simple(designator) => designator.search(searcher),
        }
    }
}

impl<T> Search<T> for SubtypeIndication {
    fn search(&self, searcher: &mut impl Searcher<T>) -> SearchResult<T> {
        match searcher.search_subtype_indication(self) {
            SearchState::Finished(result) => result,
            SearchState::NotFinished => self.type_mark.search(searcher),
        }
    }
}

impl<T> Search<T> for ElementDeclaration {
    fn search(&self, searcher: &mut impl Searcher<T>) -> SearchResult<T> {
        self.subtype.search(searcher)
    }
}

impl<T> Search<T> for ProtectedTypeDeclarativeItem {
    fn search(&self, searcher: &mut impl Searcher<T>) -> SearchResult<T> {
        match self {
            ProtectedTypeDeclarativeItem::Subprogram(subprogram) => subprogram.search(searcher),
        }
    }
}

// The mutually recursive node kinds are walked by the free functions
// below; their `Search` impls delegate.  Verus asks for an explicit
// termination measure on every cycle, and a trait method cannot carry
// one, so the recursion lives in plain functions.

impl<T> Search<T> for GenerateBody {
    fn search(&self, searcher: &mut impl Searcher<T>) -> SearchResult<T> {
        walk_generate_body(self, searcher)
    }
}

impl<T> Search<T> for LabeledConcurrentStatement {
    fn search(&self, searcher: &mut impl Searcher<T>) -> SearchResult<T> {
        walk_concurrent_statement(self, searcher)
    }
}

impl<T> Search<T> for TypeDeclaration {
    fn search(&self, searcher: &mut impl Searcher<T>) -> SearchResult<T> {
        walk_type_definition(&self.def, searcher)
    }
}

impl<T> Search<T> for Declaration {
    fn search(&self, searcher: &mut impl Searcher<T>) -> SearchResult<T> {
        walk_declaration(self, searcher)
    }
}

impl<T> Search<T> for InterfaceDeclaration {
    fn search(&self, searcher: &mut impl Searcher<T>) -> SearchResult<T> {
        walk_interface(self, searcher)
    }
}

impl<T> Search<T> for SubprogramDeclaration {
    fn search(&self, searcher: &mut impl Searcher<T>) -> SearchResult<T> {
        walk_subprogram(self, searcher)
    }
}

impl<T> Search<T> for ProcedureSpecification {
    fn search(&self, searcher: &mut impl Searcher<T>) -> SearchResult<T> {
        walk_procedure_specification(self, searcher)
    }
}

impl<T> Search<T> for FunctionSpecification {
    fn search(&self, searcher: &mut impl Searcher<T>) -> SearchResult<T> {
        walk_function_specification(self, searcher)
    }
}

fn walk_declaration<T, S: Searcher<T>>(decl: &Declaration, searcher: &mut S) -> SearchResult<T>
    decreases decl, 0int,
{
    match searcher.search_declaration(decl) {
        SearchState::Finished(result) => result,
        SearchState::NotFinished => match decl {
            Declaration::Object(object) => object.subtype_indication.search(searcher),
            Declaration::Component(component) => component.ident.search(searcher),
            Declaration::Type(typ) => walk_type_definition(&typ.def, searcher),
            Declaration::SubprogramBody(body) => {
                match walk_subprogram(&body.specification, searcher) {
                    SearchResult::Found(value) => {
                        return SearchResult::Found(value);
                    },
                    SearchResult::NotFound => {},
                }
                walk_declaration_list(&body.declarations, 0, searcher)
            },
            Declaration::SubprogramDeclaration(subprogram) => walk_subprogram(
                subprogram,
                searcher,
            ),
            Declaration::Other => SearchResult::NotFound,
        },
    }
}

fn walk_declaration_list<T, S: Searcher<T>>(
    decls: &Vec<Declaration>,
    i: usize,
    searcher: &mut S,
) -> SearchResult<T>
    requires
        i <= decls@.len(),
    decreases decls@, decls@.len() - i,
{
    if i == decls.len() {
        SearchResult::NotFound
    } else {
        match walk_declaration(&decls[i], searcher) {
            SearchResult::Found(value) => SearchResult::Found(value),
            SearchResult::NotFound => walk_declaration_list(decls, i + 1, searcher),
        }
    }
}

fn walk_type_definition<T, S: Searcher<T>>(
    def: &TypeDefinition,
    searcher: &mut S,
) -> SearchResult<T>
    decreases def, 0int,
{
    match def {
        TypeDefinition::ProtectedBody(body) => walk_declaration_list(&body.decl, 0, searcher),
        TypeDefinition::Protected(prot_decl) => prot_decl.items.search(searcher),
        TypeDefinition::Record(element_decls) => element_decls.search(searcher),
        TypeDefinition::Access(subtype_indication) => subtype_indication.search(searcher),
        TypeDefinition::Array(subtype_indication) => subtype_indication.search(searcher),
        TypeDefinition::Subtype(subtype_indication) => subtype_indication.search(searcher),
        TypeDefinition::Other => SearchResult::NotFound,
    }
}

fn walk_subprogram<T, S: Searcher<T>>(
    decl: &SubprogramDeclaration,
    searcher: &mut S,
) -> SearchResult<T>
    decreases decl, 0int,
{
    match decl {
        SubprogramDeclaration::Function(function) => walk_function_specification(
            function,
            searcher,
        ),
        SubprogramDeclaration::Procedure(procedure) => walk_procedure_specification(
            procedure,
            searcher,
        ),
    }
}

fn walk_procedure_specification<T, S: Searcher<T>>(
    specification: &ProcedureSpecification,
    searcher: &mut S,
) -> SearchResult<T>
    decreases specification, 0int,
{
    walk_interface_list(&specification.parameter_list, 0, searcher)
}

fn walk_function_specification<T, S: Searcher<T>>(
    specification: &FunctionSpecification,
    searcher: &mut S,
) -> SearchResult<T>
    decreases specification, 0int,
{
    match walk_interface_list(&specification.parameter_list, 0, searcher) {
        SearchResult::Found(value) => {
            return SearchResult::Found(value);
        },
        SearchResult::NotFound => {},
    }
    specification.return_type.search(searcher)
}

fn walk_interface<T, S: Searcher<T>>(
    decl: &InterfaceDeclaration,
    searcher: &mut S,
) -> SearchResult<T>
    decreases decl, 0int,
{
    match searcher.search_interface_declaration(decl) {
        SearchState::Finished(result) => result,
        SearchState::NotFinished => match decl {
            InterfaceDeclaration::Object(object) => object.subtype_indication.search(searcher),
            InterfaceDeclaration::Subprogram(subprogram) => walk_subprogram(subprogram, searcher),
            InterfaceDeclaration::Other => SearchResult::NotFound,
        },
    }
}

fn walk_interface_list<T, S: Searcher<T>>(
    decls: &Vec<InterfaceDeclaration>,
    i: usize,
    searcher: &mut S,
) -> SearchResult<T>
    requires
        i <= decls@.len(),
    decreases decls@, decls@.len() - i,
{
    if i == decls.len() {
        SearchResult::NotFound
    } else {
        match walk_interface(&decls[i], searcher) {
            SearchResult::Found(value) => SearchResult::Found(value),
            SearchResult::NotFound => walk_interface_list(decls, i + 1, searcher),
        }
    }
}

fn walk_generate_body<T, S: Searcher<T>>(body: &GenerateBody, searcher: &mut S) -> SearchResult<T>
    decreases body, 0int,
{
    match body.decl.search(searcher) {
        SearchResult::Found(value) => {
            return SearchResult::Found(value);
        },
        SearchResult::NotFound => {},
    }
    walk_statement_list(&body.statements, 0, searcher)
}

fn walk_generate_body_list<T, S: Searcher<T>>(
    bodies: &Vec<GenerateBody>,
    i: usize,
    searcher: &mut S,
) -> SearchResult<T>
    requires
        i <= bodies@.len(),
    decreases bodies@, bodies@.len() - i,
{
    if i == bodies.len() {
        SearchResult::NotFound
    } else {
        match walk_generate_body(&bodies[i], searcher) {
            SearchResult::Found(value) => SearchResult::Found(value),
            SearchResult::NotFound => walk_generate_body_list(bodies, i + 1, searcher),
        }
    }
}

fn walk_concurrent_statement<T, S: Searcher<T>>(
    stmt: &LabeledConcurrentStatement,
    searcher: &mut S,
) -> SearchResult<T>
    decreases stmt, 0int,
{
    match searcher.search_labeled_concurrent_statement(stmt) {
        SearchState::Finished(result) => result,
        SearchState::NotFinished => match &stmt.statement {
            ConcurrentStatement::Block(block) => {
                match block.decl.search(searcher) {
                    SearchResult::Found(value) => {
                        return SearchResult::Found(value);
                    },
                    SearchResult::NotFound => {},
                }
                walk_statement_list(&block.statements, 0, searcher)
            },
            ConcurrentStatement::Process(process) => {
                match process.decl.search(searcher) {
                    SearchResult::Found(value) => {
                        return SearchResult::Found(value);
                    },
                    SearchResult::NotFound => {},
                }
                process.statements.search(searcher)
            },
            ConcurrentStatement::ForGenerate(gen) => walk_generate_body(&gen.body, searcher),
            ConcurrentStatement::IfGenerate(gen) => {
                match walk_generate_body_list(&gen.conditionals, 0, searcher) {
                    SearchResult::Found(value) => {
                        return SearchResult::Found(value);
                    },
                    SearchResult::NotFound => {},
                }
                match &gen.else_item {
                    Some(else_item) => walk_generate_body(else_item, searcher),
                    None => SearchResult::NotFound,
                }
            },
            ConcurrentStatement::CaseGenerate(gen) => walk_generate_body_list(
                &gen.alternatives,
                0,
                searcher,
            ),
            ConcurrentStatement::Instance(instance) => instance.name.search(searcher),
            ConcurrentStatement::Other => SearchResult::NotFound,
        },
    }
}

fn walk_statement_list<T, S: Searcher<T>>(
    stmts: &Vec<LabeledConcurrentStatement>,
    i: usize,
    searcher: &mut S,
) -> SearchResult<T>
    requires
        i <= stmts@.len(),
    decreases stmts@, stmts@.len() - i,
{
    if i == stmts.len() {
        SearchResult::NotFound
    } else {
        match walk_concurrent_statement(&stmts[i], searcher) {
            SearchResult::Found(value) => SearchResult::Found(value),
            SearchResult::NotFound => walk_statement_list(stmts, i + 1, searcher),
        }
    }
}

impl<T> Search<T> for EntityUnit {
    fn search(&self, searcher: &mut impl Searcher<T>) -> SearchResult<T> {
        match searcher.search_source(&self.source) {
            SearchState::Finished(result) => result,
            SearchState::NotFinished => {
                match self.ident.search(searcher) {
                    SearchResult::Found(value) => {
                        return SearchResult::Found(value);
                    },
                    SearchResult::NotFound => {},
                }
                match self.generic_clause.search(searcher) {
                    SearchResult::Found(value) => {
                        return SearchResult::Found(value);
                    },
                    SearchResult::NotFound => {},
                }
                match self.port_clause.search(searcher) {
                    SearchResult::Found(value) => {
                        return SearchResult::Found(value);
                    },
                    SearchResult::NotFound => {},
                }
                match self.decl.search(searcher) {
                    SearchResult::Found(value) => {
                        return SearchResult::Found(value);
                    },
                    SearchResult::NotFound => {},
                }
                self.statements.search(searcher)
            },
        }
    }
}

impl<T> Search<T> for ArchitectureUnit {
    fn search(&self, searcher: &mut impl Searcher<T>) -> SearchResult<T> {
        match searcher.search_source(&self.source) {
            SearchState::Finished(result) => result,
            SearchState::NotFinished => {
                match self.ident.search(searcher) {
                    SearchResult::Found(value) => {
                        return SearchResult::Found(value);
                    },
                    SearchResult::NotFound => {},
                }
                match self.entity_name.search(searcher) {
                    SearchResult::Found(value) => {
                        return SearchResult::Found(value);
                    },
                    SearchResult::NotFound => {},
                }
                match self.decl.search(searcher) {
                    SearchResult::Found(value) => {
                        return SearchResult::Found(value);
                    },
                    SearchResult::NotFound => {},
                }
                self.statements.search(searcher)
            },
        }
    }
}

impl<T> Search<T> for ConfigurationUnit {
    fn search(&self, searcher: &mut impl Searcher<T>) -> SearchResult<T> {
        match searcher.search_source(&self.source) {
            SearchState::Finished(result) => result,
            SearchState::NotFinished => {
                match self.ident.search(searcher) {
                    SearchResult::Found(value) => {
                        return SearchResult::Found(value);
                    },
                    SearchResult::NotFound => {},
                }
                self.entity_name.search(searcher)
            },
        }
    }
}

impl<T> Search<T> for PackageUnit {
    fn search(&self, searcher: &mut impl Searcher<T>) -> SearchResult<T> {
        match searcher.search_source(&self.source) {
            SearchState::Finished(result) => result,
            SearchState::NotFinished => {
                match self.ident.search(searcher) {
                    SearchResult::Found(value) => {
                        return SearchResult::Found(value);
                    },
                    SearchResult::NotFound => {},
                }
                match self.generic_clause.search(searcher) {
                    SearchResult::Found(value) => {
                        return SearchResult::Found(value);
                    },
                    SearchResult::NotFound => {},
                }
                self.decl.search(searcher)
            },
        }
    }
}

impl<T> Search<T> for PackageBodyUnit {
    fn search(&self, searcher: &mut impl Searcher<T>) -> SearchResult<T> {
        match searcher.search_source(&self.source) {
            SearchState::Finished(result) => result,
            SearchState::NotFinished => {
                match self.ident.search(searcher) {
                    SearchResult::Found(value) => {
                        return SearchResult::Found(value);
                    },
                    SearchResult::NotFound => {},
                }
                self.decl.search(searcher)
            },
        }
    }
}

impl<T> Search<T> for PackageInstanceUnit {
    fn search(&self, searcher: &mut impl Searcher<T>) -> SearchResult<T> {
        match searcher.search_source(&self.source) {
            SearchState::Finished(result) => result,
            SearchState::NotFinished => {
                match self.ident.search(searcher) {
                    SearchResult::Found(value) => SearchResult::Found(value),
                    SearchResult::NotFound => self.package_name.search(searcher),
                }
            },
        }
    }
}

/// first designator it reaches, with that designator's resolved position.
pub struct ReferenceSearcher {
    source: Source,
    cursor: usize,
}

impl ReferenceSearcher {
    pub fn new(source: &Source, cursor: usize) -> (r: ReferenceSearcher)
        ensures
            r.spec_source() == *source,
            r.spec_cursor() == cursor,
    {
        ReferenceSearcher { source: *source, cursor }
    }

    pub closed spec fn spec_source(self) -> Source {
        self.source
    }

    pub closed spec fn spec_cursor(self) -> usize {
        self.cursor
    }
}

impl Searcher<SrcPos> for ReferenceSearcher {
    /// A span that misses the cursor prunes its subtree; the cursor
    /// matches both boundary gaps of the span.
    fn search_with_pos(&mut self, pos: &SrcPos) -> (r: SearchState<SrcPos>)
        ensures
            *final(self) == *old(self),
            r == (if pos.spec_contains(old(self).spec_cursor()) {
                SearchState::<SrcPos>::NotFinished
            } else {
                SearchState::<SrcPos>::Finished(SearchResult::<SrcPos>::NotFound)
            }),
    {
        if pos.contains(self.cursor) {
            SearchState::NotFinished
        } else {
            SearchState::Finished(SearchResult::NotFound)
        }
    }

    /// A designator that the walk reaches finishes it: with the resolved
    /// position when the name is resolved, empty-handed otherwise.
    fn search_designator_ref(&mut self, designator: &Designator) -> (r: SearchState<SrcPos>)
        ensures
            *final(self) == *old(self),
            r == (match designator.reference {
                Some(reference) => SearchState::<SrcPos>::Finished(
                    SearchResult::<SrcPos>::Found(reference),
                ),
                None => SearchState::<SrcPos>::Finished(SearchResult::<SrcPos>::NotFound),
            }),
    {
        match &designator.reference {
            Some(reference) => SearchState::Finished(SearchResult::Found(*reference)),
            None => SearchState::Finished(SearchResult::NotFound),
        }
    }

    /// A unit in another source than the queried one is pruned whole.
    fn search_source(&mut self, source: &Source) -> (r: SearchState<SrcPos>)
        ensures
            *final(self) == *old(self),
            r == (if *source == old(self).spec_source() {
                SearchState::<SrcPos>::NotFinished
            } else {
                SearchState::<SrcPos>::Finished(SearchResult::<SrcPos>::NotFound)
            }),
    {
        if self.source == *source {
            SearchState::NotFinished
        } else {
            SearchState::Finished(SearchResult::NotFound)
        }
    }
}

} // verus!
