//! Abstract syntax for a collection of hardware design units grouped into
//! named libraries.
//!
//! The types here model exactly what semantic analysis reads: identifiers,
//! source positions, and the `reference` slot on every name occurrence that
//! the library resolver fills in.  Expression-level detail that resolution
//! never inspects is left out of the tree (the `Other` variants stand for
//! such node kinds).
//!
//! The spec functions at the end enumerate, in deterministic pre-order walk
//! order, every name occurrence of a subtree as an [`Occurrence`] (its
//! position paired with its resolved position, if any).  All contracts of
//! the resolver and of the query layer are stated over these sequences.

use vstd::prelude::*;

verus! {

/// Identity of one source text.  Positions in different sources are always
/// distinct, even when their offsets coincide.
#[derive(Clone, Copy, PartialEq, Eq, Structural, Debug, PartialOrd, Ord)]
pub struct Source {
    pub id: usize,
}

/// A byte range within one source text.  `start` is the gap before the
/// first character of the range and `end` the gap after its last character.
#[derive(Clone, Copy, PartialEq, Eq, Structural, Debug, PartialOrd, Ord)]
pub struct SrcPos {
    pub source: Source,
    pub start: usize,
    pub end: usize,
}

impl SrcPos {
    /// A cursor names the gap between two characters, so a range matches
    /// both of its boundary gaps: `start` and `end` inclusive.
    pub open spec fn spec_contains(self, cursor: usize) -> bool {
        self.start <= cursor && cursor <= self.end
    }

    pub fn contains(&self, cursor: usize) -> (r: bool)
        ensures
            r == self.spec_contains(cursor),
    {
        self.start <= cursor && cursor <= self.end
    }
}

/// A name occurrence: the designator as written, plus the slot that the
/// resolver fills with the position of the declaration the name binds to.
pub struct Designator {
    pub pos: SrcPos,
    pub name: String,
    pub reference: Option<SrcPos>,
}

/// What a query sees of a name occurrence: where it stands and what it
/// resolved to.
#[derive(Clone, Copy)]
pub struct Occurrence {
    pub pos: SrcPos,
    pub reference: Option<SrcPos>,
}

pub open spec fn occ_of(d: Designator) -> Occurrence {
    Occurrence { pos: d.pos, reference: d.reference }
}

/// A possibly library-qualified name, `lib.ent` or plain `ent`.  The
/// library prefix denotes a whole library, which has no declaration of its
/// own, so only the primary designator carries a reference slot.
pub struct QualifiedName {
    /// Span of the full `lib.ent` text.
    pub pos: SrcPos,
    pub library_name: String,
    pub library_pos: SrcPos,
    pub designator: Designator,
}

pub enum SelectedName {
    Qualified(QualifiedName),
    Simple(Designator),
}

impl SelectedName {
    pub open spec fn designator(self) -> Designator {
        match self {
            SelectedName::Qualified(q) => q.designator,
            SelectedName::Simple(d) => d,
        }
    }

    /// The span a diagnostic about the whole name points at.
    pub open spec fn spec_pos(self) -> SrcPos {
        match self {
            SelectedName::Qualified(q) => q.pos,
            SelectedName::Simple(d) => d.pos,
        }
    }
}

pub struct SubtypeIndication {
    pub type_mark: SelectedName,
}

pub struct ElementDeclaration {
    pub subtype: SubtypeIndication,
}

pub enum ProtectedTypeDeclarativeItem {
    Subprogram(SubprogramDeclaration),
}

pub struct ProtectedTypeDeclaration {
    pub items: Vec<ProtectedTypeDeclarativeItem>,
}

pub struct ProtectedTypeBody {
    pub decl: Vec<Declaration>,
}

pub enum TypeDefinition {
    Protected(ProtectedTypeDeclaration),
    ProtectedBody(ProtectedTypeBody),
    Record(Vec<ElementDeclaration>),
    Access(SubtypeIndication),
    Array(SubtypeIndication),
    Subtype(SubtypeIndication),
    /// Scalar and other definitions that name no other declaration.
    Other,
}

pub struct TypeDeclaration {
    pub def: TypeDefinition,
}

pub struct ObjectDeclaration {
    pub subtype_indication: SubtypeIndication,
}

/// A component declaration inside a declarative region.  Its identifier is
/// a declaration, so the resolver registers it as its own first reference.
pub struct ComponentDeclaration {
    pub ident: Designator,
}

pub struct ProcedureSpecification {
    pub parameter_list: Vec<InterfaceDeclaration>,
}

pub struct FunctionSpecification {
    pub parameter_list: Vec<InterfaceDeclaration>,
    pub return_type: SelectedName,
}

pub enum SubprogramDeclaration {
    Procedure(ProcedureSpecification),
    Function(FunctionSpecification),
}

pub struct SubprogramBody {
    pub specification: SubprogramDeclaration,
    pub declarations: Vec<Declaration>,
}

pub struct InterfaceObjectDeclaration {
    pub subtype_indication: SubtypeIndication,
}

pub enum InterfaceDeclaration {
    Object(InterfaceObjectDeclaration),
    Subprogram(SubprogramDeclaration),
    /// Interface kinds that name no other declaration.
    Other,
}

pub enum Declaration {
    Object(ObjectDeclaration),
    Component(ComponentDeclaration),
    Type(TypeDeclaration),
    SubprogramBody(SubprogramBody),
    SubprogramDeclaration(SubprogramDeclaration),
    /// Declaration kinds that name no other declaration.
    Other,
}

/// Sequential statements carry no cross-unit name occurrences; only their
/// labels are kept.
pub struct LabeledSequentialStatement {
    pub label: Option<String>,
}

pub struct BlockStatement {
    pub decl: Vec<Declaration>,
    pub statements: Vec<LabeledConcurrentStatement>,
}

pub struct ProcessStatement {
    pub decl: Vec<Declaration>,
    pub statements: Vec<LabeledSequentialStatement>,
}

pub struct GenerateBody {
    pub decl: Option<Vec<Declaration>>,
    pub statements: Vec<LabeledConcurrentStatement>,
}

pub struct ForGenerateStatement {
    pub body: GenerateBody,
}

pub struct IfGenerateStatement {
    pub conditionals: Vec<GenerateBody>,
    pub else_item: Option<GenerateBody>,
}

pub struct CaseGenerateStatement {
    pub alternatives: Vec<GenerateBody>,
}

/// Which kind of unit an instantiation statement names.
pub enum InstantiatedUnit {
    Entity,
    Component,
    Configuration,
}

pub struct InstantiationStatement {
    pub unit: InstantiatedUnit,
    pub name: SelectedName,
}

pub enum ConcurrentStatement {
    Block(BlockStatement),
    Process(ProcessStatement),
    ForGenerate(ForGenerateStatement),
    IfGenerate(IfGenerateStatement),
    CaseGenerate(CaseGenerateStatement),
    Instance(InstantiationStatement),
    /// Statement kinds that name no other declaration.
    Other,
}

pub struct LabeledConcurrentStatement {
    pub label: Option<String>,
    pub statement: ConcurrentStatement,
}

pub struct EntityUnit {
    pub source: Source,
    pub ident: Designator,
    pub generic_clause: Option<Vec<InterfaceDeclaration>>,
    pub port_clause: Option<Vec<InterfaceDeclaration>>,
    pub decl: Vec<Declaration>,
    pub statements: Vec<LabeledConcurrentStatement>,
}

pub struct ArchitectureUnit {
    pub source: Source,
    pub ident: Designator,
    /// The entity this architecture extends, always in the same library.
    pub entity_name: Designator,
    pub decl: Vec<Declaration>,
    pub statements: Vec<LabeledConcurrentStatement>,
}

pub struct ConfigurationUnit {
    pub source: Source,
    pub ident: Designator,
    /// The configured entity, possibly written with a library prefix.
    pub entity_name: SelectedName,
}

pub struct PackageUnit {
    pub source: Source,
    pub ident: Designator,
    pub generic_clause: Option<Vec<InterfaceDeclaration>>,
    pub decl: Vec<Declaration>,
}

pub struct PackageBodyUnit {
    pub source: Source,
    /// The body's name occurrence binds to the package it extends; a body
    /// is not a declaration of its own.
    pub ident: Designator,
    pub decl: Vec<Declaration>,
}

pub struct PackageInstanceUnit {
    pub source: Source,
    pub ident: Designator,
    pub package_name: SelectedName,
}

pub enum AnyDesignUnit {
    Entity(EntityUnit),
    Architecture(ArchitectureUnit),
    Configuration(ConfigurationUnit),
    Package(PackageUnit),
    PackageBody(PackageBodyUnit),
    PackageInstance(PackageInstanceUnit),
}

/// A named library: its design units in declaration order.
pub struct Library {
    pub name: String,
    pub units: Vec<AnyDesignUnit>,
}

/// Every library of one analysis run.
pub struct DesignRoot {
    pub libraries: Vec<Library>,
}

pub open spec fn selname_occs(n: SelectedName) -> Seq<Occurrence> {
    seq![occ_of(n.designator())]
}

pub open spec fn subtype_occs(s: SubtypeIndication) -> Seq<Occurrence> {
    selname_occs(s.type_mark)
}

pub open spec fn iface_occs(d: InterfaceDeclaration) -> Seq<Occurrence>
    decreases d, 1int,
{
    match d {
        InterfaceDeclaration::Object(o) => subtype_occs(o.subtype_indication),
        InterfaceDeclaration::Subprogram(s) => subprog_occs(s),
        InterfaceDeclaration::Other => Seq::empty(),
    }
}

pub open spec fn iface_list_occs(ds: Seq<InterfaceDeclaration>) -> Seq<Occurrence>
    decreases ds, 2int,
{
    if ds.len() == 0 {
        Seq::empty()
    } else {
        iface_occs(ds[0]) + iface_list_occs(ds.drop_first())
    }
}

pub open spec fn subprog_occs(s: SubprogramDeclaration) -> Seq<Occurrence>
    decreases s, 3int,
{
    match s {
        SubprogramDeclaration::Procedure(p) => iface_list_occs(p.parameter_list@),
        SubprogramDeclaration::Function(f) => iface_list_occs(f.parameter_list@) + selname_occs(
            f.return_type,
        ),
    }
}

pub open spec fn record_occs(es: Seq<ElementDeclaration>) -> Seq<Occurrence>
    decreases es,
{
    if es.len() == 0 {
        Seq::empty()
    } else {
        subtype_occs(es[0].subtype) + record_occs(es.drop_first())
    }
}

pub open spec fn protitem_list_occs(items: Seq<ProtectedTypeDeclarativeItem>) -> Seq<Occurrence>
    decreases items,
{
    if items.len() == 0 {
        Seq::empty()
    } else {
        (match items[0] {
            ProtectedTypeDeclarativeItem::Subprogram(s) => subprog_occs(s),
        }) + protitem_list_occs(items.drop_first())
    }
}

pub open spec fn typedef_occs(t: TypeDefinition) -> Seq<Occurrence>
    decreases t, 1int,
{
    match t {
        TypeDefinition::Protected(p) => protitem_list_occs(p.items@),
        TypeDefinition::ProtectedBody(b) => decl_list_occs(b.decl@),
        TypeDefinition::Record(es) => record_occs(es@),
        TypeDefinition::Access(s) => subtype_occs(s),
        TypeDefinition::Array(s) => subtype_occs(s),
        TypeDefinition::Subtype(s) => subtype_occs(s),
        TypeDefinition::Other => Seq::empty(),
    }
}

pub open spec fn decl_occs(d: Declaration) -> Seq<Occurrence>
    decreases d, 2int,
{
    match d {
        Declaration::Object(o) => subtype_occs(o.subtype_indication),
        Declaration::Component(c) => seq![occ_of(c.ident)],
        Declaration::Type(t) => typedef_occs(t.def),
        Declaration::SubprogramBody(b) => subprog_occs(b.specification) + decl_list_occs(
            b.declarations@,
        ),
        Declaration::SubprogramDeclaration(s) => subprog_occs(s),
        Declaration::Other => Seq::empty(),
    }
}

pub open spec fn decl_list_occs(ds: Seq<Declaration>) -> Seq<Occurrence>
    decreases ds, 3int,
{
    if ds.len() == 0 {
        Seq::empty()
    } else {
        decl_occs(ds[0]) + decl_list_occs(ds.drop_first())
    }
}

pub open spec fn genbody_occs(g: GenerateBody) -> Seq<Occurrence>
    decreases g, 4int,
{
    (match g.decl {
        Some(ds) => decl_list_occs(ds@),
        None => Seq::empty(),
    }) + stmt_list_occs(g.statements@)
}

pub open spec fn genbody_list_occs(gs: Seq<GenerateBody>) -> Seq<Occurrence>
    decreases gs, 5int,
{
    if gs.len() == 0 {
        Seq::empty()
    } else {
        genbody_occs(gs[0]) + genbody_list_occs(gs.drop_first())
    }
}

pub open spec fn conc_occs(c: ConcurrentStatement) -> Seq<Occurrence>
    decreases c, 6int,
{
    match c {
        ConcurrentStatement::Block(b) => decl_list_occs(b.decl@) + stmt_list_occs(b.statements@),
        ConcurrentStatement::Process(p) => decl_list_occs(p.decl@),
        ConcurrentStatement::ForGenerate(g) => genbody_occs(g.body),
        ConcurrentStatement::IfGenerate(g) => genbody_list_occs(g.conditionals@) + (match g
            .else_item {
            Some(e) => genbody_occs(e),
            None => Seq::empty(),
        }),
        ConcurrentStatement::CaseGenerate(g) => genbody_list_occs(g.alternatives@),
        ConcurrentStatement::Instance(i) => selname_occs(i.name),
        ConcurrentStatement::Other => Seq::empty(),
    }
}

pub open spec fn stmt_occs(s: LabeledConcurrentStatement) -> Seq<Occurrence>
    decreases s, 7int,
{
    conc_occs(s.statement)
}

pub open spec fn stmt_list_occs(ss: Seq<LabeledConcurrentStatement>) -> Seq<Occurrence>
    decreases ss, 8int,
{
    if ss.len() == 0 {
        Seq::empty()
    } else {
        stmt_occs(ss[0]) + stmt_list_occs(ss.drop_first())
    }
}

pub open spec fn opt_iface_list_occs(o: Option<Vec<InterfaceDeclaration>>) -> Seq<Occurrence> {
    match o {
        Some(v) => iface_list_occs(v@),
        None => Seq::empty(),
    }
}

/// Every name occurrence of one design unit, in pre-order walk order.
pub open spec fn unit_occs(u: AnyDesignUnit) -> Seq<Occurrence>
    decreases u,
{
    match u {
        AnyDesignUnit::Entity(e) => seq![occ_of(e.ident)] + opt_iface_list_occs(e.generic_clause)
            + opt_iface_list_occs(e.port_clause) + decl_list_occs(e.decl@) + stmt_list_occs(
            e.statements@,
        ),
        AnyDesignUnit::Architecture(a) => seq![occ_of(a.ident), occ_of(a.entity_name)]
            + decl_list_occs(a.decl@) + stmt_list_occs(a.statements@),
        AnyDesignUnit::Configuration(c) => seq![occ_of(c.ident)] + selname_occs(c.entity_name),
        AnyDesignUnit::Package(p) => seq![occ_of(p.ident)] + opt_iface_list_occs(p.generic_clause)
            + decl_list_occs(p.decl@),
        AnyDesignUnit::PackageBody(b) => seq![occ_of(b.ident)] + decl_list_occs(b.decl@),
        AnyDesignUnit::PackageInstance(i) => seq![occ_of(i.ident)] + selname_occs(i.package_name),
    }
}

pub open spec fn unit_list_occs(us: Seq<AnyDesignUnit>) -> Seq<Occurrence>
    decreases us,
{
    if us.len() == 0 {
        Seq::empty()
    } else {
        unit_occs(us[0]) + unit_list_occs(us.drop_first())
    }
}

pub open spec fn lib_list_occs(ls: Seq<Library>) -> Seq<Occurrence>
    decreases ls,
{
    if ls.len() == 0 {
        Seq::empty()
    } else {
        unit_list_occs(ls[0].units@) + lib_list_occs(ls.drop_first())
    }
}

/// Every name occurrence of the whole design, in walk order.
pub open spec fn root_occs(r: DesignRoot) -> Seq<Occurrence> {
    lib_list_occs(r.libraries@)
}

} // verus!
