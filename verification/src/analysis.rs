//! The library resolver.
//!
//! Given all libraries and all design units, [`DesignRoot::analyze`] fills
//! the `reference` slot of every name occurrence that binds to a declared
//! unit or component, and returns a diagnostic for every violation.  The
//! run is best-effort and total: a resolution failure never stops the
//! analysis of sibling units or sibling occurrences.
//!
//! Resolution works in two passes.  The first pass builds a per-library
//! index of primary units, in declaration order, and reports duplicate
//! primary-unit identifiers.  The second pass walks unit by unit and
//! resolves, against that read-only index:
//!
//! - an architecture's entity name, always within its own library;
//! - a configuration's entity name, which must stay within the
//!   configuration's library and, within one source file, must not precede
//!   the entity it configures;
//! - entity, component and configuration instantiation statements, at any
//!   statement nesting depth;
//! - a package body's and a package instance's package name.
//!
//! Every unit identifier is also registered as its own first reference, as
//! is every component declared in a unit's own declarative part, so that a
//! reference search started at a declaration resolves to the declaration
//! itself.  Component instantiations are looked up in the enclosing
//! unit's own declarative part; declarations nested deeper (in blocks or
//! generate bodies) make no reference contributions and keep their
//! occurrences untouched.
//!
//! The exact effect of a run is stated by [`resolved_unit_occs`] (the
//! occurrence sequence afterwards) and [`root_diag_model`] (the diagnostic
//! sequence), both pure functions of the input tree.

use vstd::prelude::*;
use vstd::string::StringExecFns;

use crate::ast::AnyDesignUnit;
use crate::ast::ConfigurationUnit;
use crate::ast::Declaration;
use crate::ast::Designator;
use crate::ast::DesignRoot;
use crate::ast::Library;
use crate::ast::Occurrence;
use crate::ast::QualifiedName;
use crate::ast::SelectedName;
use crate::ast::SrcPos;
use crate::ast::decl_occs;
use crate::ast::decl_list_occs;
use crate::ast::genbody_occs;
use crate::ast::genbody_list_occs;
use crate::ast::stmt_occs;
use crate::ast::stmt_list_occs;
use crate::ast::opt_iface_list_occs;
use crate::ast::root_occs;
use crate::ast::unit_occs;
use crate::ast::unit_list_occs;
use crate::ast::lib_list_occs;

verus! {

#[derive(Clone, Copy, PartialEq, Eq, Structural, Debug)]
pub enum Severity {
    Warning,
    Error,
}

/// What one diagnostic says: its severity, the span it points at, and its
/// exact message text.
pub struct DiagView {
    pub severity: Severity,
    pub pos: SrcPos,
    pub message: Seq<char>,
}

#[derive(Debug)]
pub struct Diagnostic {
    pub severity: Severity,
    pub pos: SrcPos,
    pub message: String,
}

impl View for Diagnostic {
    type V = DiagView;

    open spec fn view(&self) -> DiagView {
        DiagView { severity: self.severity, pos: self.pos, message: self.message@ }
    }
}

impl Diagnostic {
    pub fn error(pos: SrcPos, message: String) -> (r: Diagnostic)
        ensures
            r@ == (DiagView { severity: Severity::Error, pos, message: message@ }),
    {
        Diagnostic { severity: Severity::Error, pos, message }
    }
}

pub open spec fn error_at(pos: SrcPos, message: Seq<char>) -> DiagView {
    DiagView { severity: Severity::Error, pos, message }
}

pub open spec fn diag_views(diagnostics: Seq<Diagnostic>) -> Seq<DiagView> {
    diagnostics.map_values(|d: Diagnostic| d@)
}

pub open spec fn msg_no_primary_unit(name: Seq<char>, library_name: Seq<char>) -> Seq<char> {
    "No primary unit '"@ + name + "' within '"@ + library_name + "'"@
}

pub open spec fn msg_no_declaration(name: Seq<char>) -> Seq<char> {
    "No declaration of '"@ + name + "'"@
}

pub open spec fn msg_foreign_library(library_name: Seq<char>) -> Seq<char> {
    "Configuration must be within the same library '"@ + library_name
        + "' as the corresponding entity"@
}

pub open spec fn msg_declared_before(configuration_name: Seq<char>, entity_name: Seq<char>)
    -> Seq<char> {
    "Configuration '"@ + configuration_name + "' declared before entity '"@ + entity_name + "'"@
}

pub open spec fn msg_duplicate_primary_unit(name: Seq<char>) -> Seq<char> {
    "Duplicate primary unit '"@ + name + "'"@
}

fn build_no_primary_unit(name: &String, library_name: &String) -> (m: String)
    ensures
        m@ == msg_no_primary_unit(name@, library_name@),
{
    let mut m = String::new();
    m.append("No primary unit '");
    m.append(name.as_str());
    m.append("' within '");
    m.append(library_name.as_str());
    m.append("'");
    proof {
        assert(m@ =~= msg_no_primary_unit(name@, library_name@));
    }
    m
}

fn build_no_declaration(name: &String) -> (m: String)
    ensures
        m@ == msg_no_declaration(name@),
{
    let mut m = String::new();
    m.append("No declaration of '");
    m.append(name.as_str());
    m.append("'");
    proof {
        assert(m@ =~= msg_no_declaration(name@));
    }
    m
}

fn build_foreign_library(library_name: &String) -> (m: String)
    ensures
        m@ == msg_foreign_library(library_name@),
{
    let mut m = String::new();
    m.append("Configuration must be within the same library '");
    m.append(library_name.as_str());
    m.append("' as the corresponding entity");
    proof {
        assert(m@ =~= msg_foreign_library(library_name@));
    }
    m
}

fn build_declared_before(configuration_name: &String, entity_name: &String) -> (m: String)
    ensures
        m@ == msg_declared_before(configuration_name@, entity_name@),
{
    let mut m = String::new();
    m.append("Configuration '");
    m.append(configuration_name.as_str());
    m.append("' declared before entity '");
    m.append(entity_name.as_str());
    m.append("'");
    proof {
        assert(m@ =~= msg_declared_before(configuration_name@, entity_name@));
    }
    m
}

fn build_duplicate_primary_unit(name: &String) -> (m: String)
    ensures
        m@ == msg_duplicate_primary_unit(name@),
{
    let mut m = String::new();
    m.append("Duplicate primary unit '");
    m.append(name.as_str());
    m.append("'");
    proof {
        assert(m@ =~= msg_duplicate_primary_unit(name@));
    }
    m
}

pub open spec fn primary_ident(u: AnyDesignUnit) -> Option<Designator> {
    match u {
        AnyDesignUnit::Entity(e) => Some(e.ident),
        AnyDesignUnit::Configuration(c) => Some(c.ident),
        AnyDesignUnit::Package(p) => Some(p.ident),
        AnyDesignUnit::PackageInstance(i) => Some(i.ident),
        AnyDesignUnit::Architecture(_) => None,
        AnyDesignUnit::PackageBody(_) => None,
    }
}

/// Position of the first primary unit called `name`, in declaration
/// order; the first declared match wins.
pub open spec fn primary_lookup(units: Seq<AnyDesignUnit>, name: Seq<char>) -> Option<SrcPos>
    decreases units.len(),
{
    if units.len() == 0 {
        None
    } else {
        match primary_ident(units[0]) {
            Some(d) => if d.name@ == name {
                Some(d.pos)
            } else {
                primary_lookup(units.drop_first(), name)
            },
            None => primary_lookup(units.drop_first(), name),
        }
    }
}

/// The units of the first library called `name`.
pub open spec fn library_units(libs: Seq<Library>, name: Seq<char>) -> Option<Seq<AnyDesignUnit>>
    decreases libs.len(),
{
    if libs.len() == 0 {
        None
    } else if libs[0].name@ == name {
        Some(libs[0].units@)
    } else {
        library_units(libs.drop_first(), name)
    }
}

/// Position of the first component called `name` in a declarative part.
pub open spec fn component_lookup(decls: Seq<Declaration>, name: Seq<char>) -> Option<SrcPos>
    decreases decls.len(),
{
    if decls.len() == 0 {
        None
    } else {
        match decls[0] {
            Declaration::Component(c) => if c.ident.name@ == name {
                Some(c.ident.pos)
            } else {
                component_lookup(decls.drop_first(), name)
            },
            _ => component_lookup(decls.drop_first(), name),
        }
    }
}

/// Outcome of resolving one name occurrence: the reference that is
/// written into its slot, and the diagnostic reported when it stays
/// unresolved.
pub struct NameResolution {
    pub reference: Option<SrcPos>,
    pub diag: Option<DiagView>,
}

/// A declaration registers as its own first reference.
pub open spec fn self_occ(d: Designator) -> Occurrence {
    Occurrence { pos: d.pos, reference: Some(d.pos) }
}

/// The library a possibly qualified name is looked up in: the prefix
/// names a library, `work` denotes the current one, and no prefix keeps
/// the lookup in the current one.
pub open spec fn target_library(
    n: SelectedName,
    libs: Seq<Library>,
    own_name: Seq<char>,
    own_units: Seq<AnyDesignUnit>,
) -> (Seq<char>, Seq<AnyDesignUnit>) {
    match n {
        SelectedName::Simple(_) => (own_name, own_units),
        SelectedName::Qualified(q) => if q.library_name@ == "work"@ {
            (own_name, own_units)
        } else {
            match library_units(libs, q.library_name@) {
                Some(us) => (q.library_name@, us),
                None => (q.library_name@, Seq::empty()),
            }
        },
    }
}

/// Resolution of a name that must denote a primary unit (an entity or
/// configuration instantiation, or a package instance's package).
pub open spec fn resolve_primary_reference(
    n: SelectedName,
    libs: Seq<Library>,
    own_name: Seq<char>,
    own_units: Seq<AnyDesignUnit>,
) -> NameResolution {
    let d = n.designator();
    let target = target_library(n, libs, own_name, own_units);
    match primary_lookup(target.1, d.name@) {
        Some(p) => NameResolution { reference: Some(p), diag: None },
        None => NameResolution {
            reference: None,
            diag: Some(error_at(d.pos, msg_no_primary_unit(d.name@, target.0))),
        },
    }
}

/// Resolution of a component instantiation against the enclosing unit's
/// own declarative part; a library prefix has no meaning here and is
/// ignored.
pub open spec fn resolve_component_reference(
    n: SelectedName,
    components: Seq<Declaration>,
) -> NameResolution {
    let d = n.designator();
    match component_lookup(components, d.name@) {
        Some(p) => NameResolution { reference: Some(p), diag: None },
        None => NameResolution {
            reference: None,
            diag: Some(error_at(d.pos, msg_no_declaration(d.name@))),
        },
    }
}

/// Resolution of a secondary unit's name for its primary unit, always in
/// the same library.
pub open spec fn resolve_secondary_reference(
    d: Designator,
    own_name: Seq<char>,
    own_units: Seq<AnyDesignUnit>,
) -> NameResolution {
    match primary_lookup(own_units, d.name@) {
        Some(p) => NameResolution { reference: Some(p), diag: None },
        None => NameResolution {
            reference: None,
            diag: Some(error_at(d.pos, msg_no_primary_unit(d.name@, own_name))),
        },
    }
}

/// Resolution of a configuration's entity name.  A foreign library prefix
/// is a violation; an entity later in the same source file is an ordering
/// error, checked before existence elsewhere; a name declared nowhere in
/// the library is an unresolved-name error.
pub open spec fn resolve_configuration_entity(
    c: ConfigurationUnit,
    own_name: Seq<char>,
    own_units: Seq<AnyDesignUnit>,
) -> NameResolution {
    let d = c.entity_name.designator();
    let foreign = match c.entity_name {
        SelectedName::Qualified(q) => q.library_name@ != "work"@ && q.library_name@ != own_name,
        SelectedName::Simple(_) => false,
    };
    if foreign {
        NameResolution {
            reference: None,
            diag: Some(error_at(c.entity_name.spec_pos(), msg_foreign_library(own_name))),
        }
    } else {
        match primary_lookup(own_units, d.name@) {
            None => NameResolution {
                reference: None,
                diag: Some(error_at(d.pos, msg_no_declaration(d.name@))),
            },
            Some(p) => if p.source == c.source && c.ident.pos.start < p.start {
                NameResolution {
                    reference: None,
                    diag: Some(
                        error_at(c.ident.pos, msg_declared_before(c.ident.name@, d.name@)),
                    ),
                }
            } else {
                NameResolution { reference: Some(p), diag: None }
            },
        }
    }
}

/// Everything an instantiation statement inside a unit is resolved
/// against.
pub struct ResolveCtx {
    pub libs: Seq<Library>,
    pub own_name: Seq<char>,
    pub own_units: Seq<AnyDesignUnit>,
    /// The enclosing unit's own declarative part, searched for component
    /// declarations.
    pub components: Seq<Declaration>,
}

pub open spec fn resolve_instance(
    i: crate::ast::InstantiationStatement,
    ctx: ResolveCtx,
) -> NameResolution {
    match i.unit {
        crate::ast::InstantiatedUnit::Component => resolve_component_reference(
            i.name,
            ctx.components,
        ),
        _ => resolve_primary_reference(i.name, ctx.libs, ctx.own_name, ctx.own_units),
    }
}

pub open spec fn opt_diag_seq(d: Option<DiagView>) -> Seq<DiagView> {
    match d {
        Some(dv) => seq![dv],
        None => Seq::<DiagView>::empty(),
    }
}

/// Occurrences of a concurrent statement after resolution: instantiation
/// names carry what they resolved to; everything else passes through.
pub open spec fn resolved_conc_occs(c: crate::ast::ConcurrentStatement, ctx: ResolveCtx)
    -> Seq<Occurrence>
    decreases c, 0int,
{
    match c {
        crate::ast::ConcurrentStatement::Block(b) => decl_list_occs(b.decl@)
            + resolved_stmt_list_occs(b.statements@, ctx),
        crate::ast::ConcurrentStatement::Process(p) => decl_list_occs(p.decl@),
        crate::ast::ConcurrentStatement::ForGenerate(g) => resolved_genbody_occs(g.body, ctx),
        crate::ast::ConcurrentStatement::IfGenerate(g) => resolved_genbody_list_occs(
            g.conditionals@,
            ctx,
        ) + (match g.else_item {
            Some(e) => resolved_genbody_occs(e, ctx),
            None => Seq::<Occurrence>::empty(),
        }),
        crate::ast::ConcurrentStatement::CaseGenerate(g) => resolved_genbody_list_occs(
            g.alternatives@,
            ctx,
        ),
        crate::ast::ConcurrentStatement::Instance(i) => seq![
            Occurrence {
                pos: i.name.designator().pos,
                reference: resolve_instance(i, ctx).reference,
            },
        ],
        crate::ast::ConcurrentStatement::Other => Seq::<Occurrence>::empty(),
    }
}

pub open spec fn resolved_stmt_occs(s: crate::ast::LabeledConcurrentStatement, ctx: ResolveCtx)
    -> Seq<Occurrence>
    decreases s, 1int,
{
    resolved_conc_occs(s.statement, ctx)
}

pub open spec fn resolved_stmt_list_occs(
    ss: Seq<crate::ast::LabeledConcurrentStatement>,
    ctx: ResolveCtx,
) -> Seq<Occurrence>
    decreases ss, 2int,
{
    if ss.len() == 0 {
        Seq::empty()
    } else {
        resolved_stmt_occs(ss[0], ctx) + resolved_stmt_list_occs(ss.drop_first(), ctx)
    }
}

pub open spec fn resolved_genbody_occs(g: crate::ast::GenerateBody, ctx: ResolveCtx)
    -> Seq<Occurrence>
    decreases g, 3int,
{
    (match g.decl {
        Some(ds) => decl_list_occs(ds@),
        None => Seq::<Occurrence>::empty(),
    }) + resolved_stmt_list_occs(g.statements@, ctx)
}

pub open spec fn resolved_genbody_list_occs(gs: Seq<crate::ast::GenerateBody>, ctx: ResolveCtx)
    -> Seq<Occurrence>
    decreases gs, 4int,
{
    if gs.len() == 0 {
        Seq::empty()
    } else {
        resolved_genbody_occs(gs[0], ctx) + resolved_genbody_list_occs(gs.drop_first(), ctx)
    }
}

/// Diagnostics of a concurrent statement, in walk order.
pub open spec fn conc_diags(c: crate::ast::ConcurrentStatement, ctx: ResolveCtx) -> Seq<DiagView>
    decreases c, 0int,
{
    match c {
        crate::ast::ConcurrentStatement::Block(b) => stmt_list_diags(b.statements@, ctx),
        crate::ast::ConcurrentStatement::Process(_) => Seq::empty(),
        crate::ast::ConcurrentStatement::ForGenerate(g) => genbody_diags(g.body, ctx),
        crate::ast::ConcurrentStatement::IfGenerate(g) => genbody_list_diags(g.conditionals@, ctx)
            + (match g.else_item {
            Some(e) => genbody_diags(e, ctx),
            None => Seq::<DiagView>::empty(),
        }),
        crate::ast::ConcurrentStatement::CaseGenerate(g) => genbody_list_diags(
            g.alternatives@,
            ctx,
        ),
        crate::ast::ConcurrentStatement::Instance(i) => opt_diag_seq(resolve_instance(i, ctx).diag),
        crate::ast::ConcurrentStatement::Other => Seq::empty(),
    }
}

pub open spec fn stmt_diags(s: crate::ast::LabeledConcurrentStatement, ctx: ResolveCtx)
    -> Seq<DiagView>
    decreases s, 1int,
{
    conc_diags(s.statement, ctx)
}

pub open spec fn stmt_list_diags(
    ss: Seq<crate::ast::LabeledConcurrentStatement>,
    ctx: ResolveCtx,
) -> Seq<DiagView>
    decreases ss, 2int,
{
    if ss.len() == 0 {
        Seq::empty()
    } else {
        stmt_diags(ss[0], ctx) + stmt_list_diags(ss.drop_first(), ctx)
    }
}

pub open spec fn genbody_diags(g: crate::ast::GenerateBody, ctx: ResolveCtx) -> Seq<DiagView>
    decreases g, 3int,
{
    stmt_list_diags(g.statements@, ctx)
}

pub open spec fn genbody_list_diags(gs: Seq<crate::ast::GenerateBody>, ctx: ResolveCtx)
    -> Seq<DiagView>
    decreases gs, 4int,
{
    if gs.len() == 0 {
        Seq::empty()
    } else {
        genbody_diags(gs[0], ctx) + genbody_list_diags(gs.drop_first(), ctx)
    }
}

/// Occurrences of a unit's own declarative part after resolution:
/// component declarations register as their own first reference,
/// everything else passes through.
pub open spec fn registered_decl_occs(d: Declaration) -> Seq<Occurrence> {
    match d {
        Declaration::Component(c) => seq![self_occ(c.ident)],
        _ => decl_occs(d),
    }
}

pub open spec fn registered_decl_list_occs(ds: Seq<Declaration>) -> Seq<Occurrence>
    decreases ds.len(),
{
    if ds.len() == 0 {
        Seq::empty()
    } else {
        registered_decl_occs(ds[0]) + registered_decl_list_occs(ds.drop_first())
    }
}

/// The occurrence sequence of one unit after a resolver pass, in walk
/// order, as a pure function of the unresolved input.
pub open spec fn resolved_unit_occs(
    u: AnyDesignUnit,
    libs: Seq<Library>,
    own_name: Seq<char>,
    own_units: Seq<AnyDesignUnit>,
) -> Seq<Occurrence> {
    match u {
        AnyDesignUnit::Entity(e) => seq![self_occ(e.ident)] + opt_iface_list_occs(e.generic_clause)
            + opt_iface_list_occs(e.port_clause) + registered_decl_list_occs(e.decl@)
            + resolved_stmt_list_occs(
            e.statements@,
            ResolveCtx { libs, own_name, own_units, components: e.decl@ },
        ),
        AnyDesignUnit::Architecture(a) => seq![
            self_occ(a.ident),
            Occurrence {
                pos: a.entity_name.pos,
                reference: resolve_secondary_reference(
                    a.entity_name,
                    own_name,
                    own_units,
                ).reference,
            },
        ] + registered_decl_list_occs(a.decl@) + resolved_stmt_list_occs(
            a.statements@,
            ResolveCtx { libs, own_name, own_units, components: a.decl@ },
        ),
        AnyDesignUnit::Configuration(c) => seq![
            self_occ(c.ident),
            Occurrence {
                pos: c.entity_name.designator().pos,
                reference: resolve_configuration_entity(c, own_name, own_units).reference,
            },
        ],
        AnyDesignUnit::Package(p) => seq![self_occ(p.ident)] + opt_iface_list_occs(
            p.generic_clause,
        ) + registered_decl_list_occs(p.decl@),
        AnyDesignUnit::PackageBody(b) => seq![
            Occurrence {
                pos: b.ident.pos,
                reference: resolve_secondary_reference(b.ident, own_name, own_units).reference,
            },
        ] + registered_decl_list_occs(b.decl@),
        AnyDesignUnit::PackageInstance(i) => seq![
            self_occ(i.ident),
            Occurrence {
                pos: i.package_name.designator().pos,
                reference: resolve_primary_reference(
                    i.package_name,
                    libs,
                    own_name,
                    own_units,
                ).reference,
            },
        ],
    }
}

/// The diagnostics one unit contributes, in resolution order.
pub open spec fn unit_diag_seq(
    u: AnyDesignUnit,
    libs: Seq<Library>,
    own_name: Seq<char>,
    own_units: Seq<AnyDesignUnit>,
) -> Seq<DiagView> {
    match u {
        AnyDesignUnit::Entity(e) => stmt_list_diags(
            e.statements@,
            ResolveCtx { libs, own_name, own_units, components: e.decl@ },
        ),
        AnyDesignUnit::Architecture(a) => opt_diag_seq(
            resolve_secondary_reference(a.entity_name, own_name, own_units).diag,
        ) + stmt_list_diags(
            a.statements@,
            ResolveCtx { libs, own_name, own_units, components: a.decl@ },
        ),
        AnyDesignUnit::Configuration(c) => opt_diag_seq(
            resolve_configuration_entity(c, own_name, own_units).diag,
        ),
        AnyDesignUnit::Package(_) => Seq::empty(),
        AnyDesignUnit::PackageBody(b) => opt_diag_seq(
            resolve_secondary_reference(b.ident, own_name, own_units).diag,
        ),
        AnyDesignUnit::PackageInstance(i) => opt_diag_seq(
            resolve_primary_reference(i.package_name, libs, own_name, own_units).diag,
        ),
    }
}

pub open spec fn resolved_unit_list_occs(
    us: Seq<AnyDesignUnit>,
    libs: Seq<Library>,
    own_name: Seq<char>,
    own_units: Seq<AnyDesignUnit>,
) -> Seq<Occurrence>
    decreases us.len(),
{
    if us.len() == 0 {
        Seq::empty()
    } else {
        resolved_unit_occs(us[0], libs, own_name, own_units) + resolved_unit_list_occs(
            us.drop_first(),
            libs,
            own_name,
            own_units,
        )
    }
}

pub open spec fn unit_list_diags(
    us: Seq<AnyDesignUnit>,
    libs: Seq<Library>,
    own_name: Seq<char>,
    own_units: Seq<AnyDesignUnit>,
) -> Seq<DiagView>
    decreases us.len(),
{
    if us.len() == 0 {
        Seq::empty()
    } else {
        unit_diag_seq(us[0], libs, own_name, own_units) + unit_list_diags(
            us.drop_first(),
            libs,
            own_name,
            own_units,
        )
    }
}

pub open spec fn resolved_lib_list_occs(ls: Seq<Library>, libs: Seq<Library>) -> Seq<Occurrence>
    decreases ls.len(),
{
    if ls.len() == 0 {
        Seq::empty()
    } else {
        resolved_unit_list_occs(ls[0].units@, libs, ls[0].name@, ls[0].units@)
            + resolved_lib_list_occs(ls.drop_first(), libs)
    }
}

pub open spec fn lib_list_res_diags(ls: Seq<Library>, libs: Seq<Library>) -> Seq<DiagView>
    decreases ls.len(),
{
    if ls.len() == 0 {
        Seq::empty()
    } else {
        unit_list_diags(ls[0].units@, libs, ls[0].name@, ls[0].units@) + lib_list_res_diags(
            ls.drop_first(),
            libs,
        )
    }
}

/// Diagnostics of the indexing pass: a primary unit whose identifier an
/// earlier primary unit of the same library already uses is reported at
/// the duplicate's position, and the first declaration stays
/// authoritative.
pub open spec fn dup_step(units: Seq<AnyDesignUnit>, i: int) -> Seq<DiagView> {
    match primary_ident(units[i]) {
        Some(d) => if primary_lookup(units.take(i), d.name@) is Some {
            seq![error_at(d.pos, msg_duplicate_primary_unit(d.name@))]
        } else {
            Seq::<DiagView>::empty()
        },
        None => Seq::<DiagView>::empty(),
    }
}

pub open spec fn dup_diags_upto(units: Seq<AnyDesignUnit>, i: int) -> Seq<DiagView>
    decreases i,
{
    if i <= 0 {
        Seq::empty()
    } else {
        dup_diags_upto(units, i - 1) + dup_step(units, i - 1)
    }
}

pub open spec fn dup_diags(units: Seq<AnyDesignUnit>) -> Seq<DiagView> {
    dup_diags_upto(units, units.len() as int)
}

pub open spec fn lib_list_dup_diags(ls: Seq<Library>) -> Seq<DiagView>
    decreases ls.len(),
{
    if ls.len() == 0 {
        Seq::empty()
    } else {
        dup_diags(ls[0].units@) + lib_list_dup_diags(ls.drop_first())
    }
}

/// The occurrence sequence of the whole design after one resolver pass.
pub open spec fn root_resolved_occs(r: DesignRoot) -> Seq<Occurrence> {
    resolved_lib_list_occs(r.libraries@, r.libraries@)
}

/// Every diagnostic of one analysis run, in order: the indexing pass
/// first, then resolution, libraries and units in declaration order.
pub open spec fn root_diag_model(r: DesignRoot) -> Seq<DiagView> {
    lib_list_dup_diags(r.libraries@) + lib_list_res_diags(r.libraries@, r.libraries@)
}


/// The designator with its reference slot written.
pub open spec fn set_designator_ref(d: Designator, reference: Option<SrcPos>) -> Designator {
    Designator { pos: d.pos, name: d.name, reference }
}

/// The selected name with its primary designator's slot written.
pub open spec fn set_selname_ref(n: SelectedName, reference: Option<SrcPos>) -> SelectedName {
    match n {
        SelectedName::Qualified(q) => SelectedName::Qualified(
            QualifiedName {
                pos: q.pos,
                library_name: q.library_name,
                library_pos: q.library_pos,
                designator: set_designator_ref(q.designator, reference),
            },
        ),
        SelectedName::Simple(d) => SelectedName::Simple(set_designator_ref(d, reference)),
    }
}

/// One entry of the per-library primary-unit index.
struct PrimaryEntry {
    name: String,
    pos: SrcPos,
}

/// The read-only index one library gets from the first pass.
struct LibraryIndex {
    name: String,
    entries: Vec<PrimaryEntry>,
}

spec fn entry_lookup_spec(entries: Seq<PrimaryEntry>, name: Seq<char>) -> Option<SrcPos>
    decreases entries.len(),
{
    if entries.len() == 0 {
        None
    } else if entries[0].name@ == name {
        Some(entries[0].pos)
    } else {
        entry_lookup_spec(entries.drop_first(), name)
    }
}

/// The index says of every library exactly what declaration-order lookup
/// in the library itself says.
spec fn index_matches(index: Seq<LibraryIndex>, libs: Seq<Library>) -> bool {
    &&& index.len() == libs.len()
    &&& forall|li: int| 0 <= li < libs.len() ==> (#[trigger] index[li]).name@ == libs[li].name@
    &&& forall|li: int, n: Seq<char>|
        0 <= li < libs.len() ==> #[trigger] entry_lookup_spec(index[li].entries@, n)
            == primary_lookup(libs[li].units@, n)
}

fn entry_lookup(entries: &Vec<PrimaryEntry>, i: usize, name: &String) -> (r: Option<SrcPos>)
    requires
        i <= entries@.len(),
    ensures
        r == entry_lookup_spec(entries@.skip(i as int), name@),
    decreases entries@.len() - i,
{
    if i == entries.len() {
        proof {
            assert(entries@.skip(i as int) =~= Seq::<PrimaryEntry>::empty());
        }
        None
    } else {
        proof {
            assert(entries@.skip(i as int)[0] == entries@[i as int]);
            assert(entries@.skip(i as int).drop_first() =~= entries@.skip(i as int + 1));
        }
        if entries[i].name == *name {
            Some(entries[i].pos)
        } else {
            entry_lookup(entries, i + 1, name)
        }
    }
}

fn find_library(
    index: &Vec<LibraryIndex>,
    i: usize,
    name: &String,
    Ghost(libs): Ghost<Seq<Library>>,
) -> (r: Option<usize>)
    requires
        index_matches(index@, libs),
        i <= index@.len(),
    ensures
        (match r {
            Some(ti) => i <= ti < libs.len() && libs[ti as int].name@ == name@ && library_units(
                libs.skip(i as int),
                name@,
            ) == Some(libs[ti as int].units@),
            None => library_units(libs.skip(i as int), name@) is None,
        }),
    decreases index@.len() - i,
{
    if i == index.len() {
        proof {
            assert(libs.skip(i as int) =~= Seq::<Library>::empty());
        }
        None
    } else {
        proof {
            assert(libs.skip(i as int)[0] == libs[i as int]);
            assert(libs.skip(i as int).drop_first() =~= libs.skip(i as int + 1));
        }
        if index[i].name == *name {
            Some(i)
        } else {
            find_library(index, i + 1, name, Ghost(libs))
        }
    }
}

proof fn lemma_primary_lookup_push(units: Seq<AnyDesignUnit>, u: AnyDesignUnit, name: Seq<char>)
    ensures
        primary_lookup(units.push(u), name) == (match primary_lookup(units, name) {
            Some(p) => Some(p),
            None => match primary_ident(u) {
                Some(d) => if d.name@ == name {
                    Some(d.pos)
                } else {
                    None
                },
                None => None,
            },
        }),
    decreases units.len(),
{
    if units.len() == 0 {
        assert(units.push(u)[0] == u);
        assert(units.push(u).drop_first() =~= Seq::<AnyDesignUnit>::empty());
        assert(primary_lookup(Seq::<AnyDesignUnit>::empty(), name) is None);
        assert(primary_lookup(units, name) is None);
    } else {
        assert(units.push(u)[0] == units[0]);
        assert(units.push(u).drop_first() =~= units.drop_first().push(u));
        lemma_primary_lookup_push(units.drop_first(), u, name);
    }
}

proof fn lemma_entry_lookup_push(entries: Seq<PrimaryEntry>, e: PrimaryEntry, name: Seq<char>)
    ensures
        entry_lookup_spec(entries.push(e), name) == (match entry_lookup_spec(entries, name) {
            Some(p) => Some(p),
            None => if e.name@ == name {
                Some(e.pos)
            } else {
                None
            },
        }),
    decreases entries.len(),
{
    if entries.len() == 0 {
        assert(entries.push(e)[0] == e);
        assert(entries.push(e).drop_first() =~= Seq::<PrimaryEntry>::empty());
        assert(entry_lookup_spec(Seq::<PrimaryEntry>::empty(), name) is None);
        assert(entry_lookup_spec(entries, name) is None);
    } else {
        assert(entries.push(e)[0] == entries[0]);
        assert(entries.push(e).drop_first() =~= entries.drop_first().push(e));
        lemma_entry_lookup_push(entries.drop_first(), e, name);
    }
}

/// The primary-unit entry a unit contributes to its library's index.
fn primary_entry_of(u: &AnyDesignUnit) -> (r: Option<PrimaryEntry>)
    ensures
        (match primary_ident(*u) {
            Some(d) => r is Some && r.unwrap().name@ == d.name@ && r.unwrap().pos == d.pos,
            None => r is None,
        }),
{
    match u {
        AnyDesignUnit::Entity(e) => Some(
            PrimaryEntry { name: e.ident.name.clone(), pos: e.ident.pos },
        ),
        AnyDesignUnit::Configuration(c) => Some(
            PrimaryEntry { name: c.ident.name.clone(), pos: c.ident.pos },
        ),
        AnyDesignUnit::Package(p) => Some(
            PrimaryEntry { name: p.ident.name.clone(), pos: p.ident.pos },
        ),
        AnyDesignUnit::PackageInstance(i) => Some(
            PrimaryEntry { name: i.ident.name.clone(), pos: i.ident.pos },
        ),
        AnyDesignUnit::Architecture(_) => None,
        AnyDesignUnit::PackageBody(_) => None,
    }
}

proof fn lemma_lib_list_dup_diags_push(ls: Seq<Library>, l: Library)
    ensures
        lib_list_dup_diags(ls.push(l)) == lib_list_dup_diags(ls) + dup_diags(l.units@),
    decreases ls.len(),
{
    if ls.len() == 0 {
        assert(ls.push(l)[0] == l);
        assert(ls.push(l).drop_first() =~= Seq::<Library>::empty());
        assert(lib_list_dup_diags(Seq::<Library>::empty()) =~= Seq::<DiagView>::empty());
        assert(lib_list_dup_diags(ls.push(l)) =~= lib_list_dup_diags(ls) + dup_diags(l.units@));
    } else {
        assert(ls.push(l)[0] == ls[0]);
        assert(ls.push(l).drop_first() =~= ls.drop_first().push(l));
        lemma_lib_list_dup_diags_push(ls.drop_first(), l);
        assert(lib_list_dup_diags(ls.push(l)) =~= lib_list_dup_diags(ls) + dup_diags(l.units@));
    }
}

/// First pass over one library: index its primary units in declaration
/// order and report duplicate identifiers.
fn build_library_index(lib: &Library, diagnostics: &mut Vec<Diagnostic>) -> (idx: LibraryIndex)
    ensures
        idx.name@ == lib.name@,
        forall|n: Seq<char>|
            #[trigger] entry_lookup_spec(idx.entries@, n) == primary_lookup(lib.units@, n),
        diag_views(final(diagnostics)@) == diag_views(old(diagnostics)@) + dup_diags(lib.units@),
{
    let mut entries: Vec<PrimaryEntry> = Vec::new();
    let mut ui: usize = 0;
    while ui < lib.units.len()
        invariant
            ui <= lib.units@.len(),
            forall|n: Seq<char>|
                #[trigger] entry_lookup_spec(entries@, n) == primary_lookup(
                    lib.units@.take(ui as int),
                    n,
                ),
            diag_views(diagnostics@) == diag_views(old(diagnostics)@) + dup_diags_upto(
                lib.units@,
                ui as int,
            ),
        decreases lib.units@.len() - ui,
    {
        let ghost prefix = lib.units@.take(ui as int);
        let ghost diags_before = diagnostics@;
        match primary_entry_of(&lib.units[ui]) {
            Some(entry) => {
                let dup = entry_lookup(&entries, 0, &entry.name);
                proof {
                    assert(entries@.skip(0) =~= entries@);
                }
                if dup.is_some() {
                    let message = build_duplicate_primary_unit(&entry.name);
                    let diag = Diagnostic::error(entry.pos, message);
                    diagnostics.push(diag);
                    proof {
                        assert(diag_views(diagnostics@) =~= diag_views(diags_before).push(
                            error_at(
                                entry.pos,
                                msg_duplicate_primary_unit(entry.name@),
                            ),
                        ));
                        assert(diag_views(diagnostics@) =~= diag_views(old(diagnostics)@)
                            + dup_diags_upto(lib.units@, ui as int + 1));
                    }
                } else {
                    proof {
                        assert(diag_views(diagnostics@) =~= diag_views(old(diagnostics)@)
                            + dup_diags_upto(lib.units@, ui as int + 1));
                    }
                }
                let ghost entries_before = entries@;
                let ghost entry_snap = entry;
                entries.push(entry);
                proof {
                    assert forall|n: Seq<char>|
                        #[trigger] entry_lookup_spec(entries@, n) == primary_lookup(
                            lib.units@.take(ui as int + 1),
                            n,
                        ) by {
                        lemma_entry_lookup_push(entries_before, entry_snap, n);
                        lemma_primary_lookup_push(prefix, lib.units@[ui as int], n);
                        assert(lib.units@.take(ui as int + 1) =~= prefix.push(
                            lib.units@[ui as int],
                        ));
                    }
                }
            },
            None => {
                proof {
                    assert forall|n: Seq<char>|
                        #[trigger] entry_lookup_spec(entries@, n) == primary_lookup(
                            lib.units@.take(ui as int + 1),
                            n,
                        ) by {
                        lemma_primary_lookup_push(prefix, lib.units@[ui as int], n);
                        assert(lib.units@.take(ui as int + 1) =~= prefix.push(
                            lib.units@[ui as int],
                        ));
                    }
                    assert(diag_views(diagnostics@) =~= diag_views(old(diagnostics)@)
                        + dup_diags_upto(lib.units@, ui as int + 1));
                }
            },
        }
        ui = ui + 1;
    }
    proof {
        assert(lib.units@.take(lib.units@.len() as int) =~= lib.units@);
    }
    LibraryIndex { name: lib.name.clone(), entries }
}

/// First pass over every library.
fn build_root_index(libraries: &Vec<Library>, diagnostics: &mut Vec<Diagnostic>) -> (index: Vec<
    LibraryIndex,
>)
    ensures
        index_matches(index@, libraries@),
        diag_views(final(diagnostics)@) == diag_views(old(diagnostics)@) + lib_list_dup_diags(libraries@),
{
    let mut index: Vec<LibraryIndex> = Vec::new();
    let mut li: usize = 0;
    while li < libraries.len()
        invariant
            li <= libraries@.len(),
            index@.len() == li,
            forall|j: int| 0 <= j < li ==> (#[trigger] index@[j]).name@ == libraries@[j].name@,
            forall|j: int, n: Seq<char>|
                0 <= j < li ==> #[trigger] entry_lookup_spec(index@[j].entries@, n)
                    == primary_lookup(libraries@[j].units@, n),
            diag_views(diagnostics@) == diag_views(old(diagnostics)@) + lib_list_dup_diags(
                libraries@.take(li as int),
            ),
        decreases libraries@.len() - li,
    {
        let idx = build_library_index(&libraries[li], diagnostics);
        index.push(idx);
        proof {
            assert forall|j: int, n: Seq<char>| 0 <= j < li + 1 implies #[trigger] entry_lookup_spec(
                index@[j].entries@,
                n,
            ) == primary_lookup(libraries@[j].units@, n) by {
                if j < li {
                    assert(index@[j] == index@.drop_last()[j]);
                } else {
                    assert(index@[j] == idx);
                }
            }
            lemma_lib_list_dup_diags_push(libraries@.take(li as int), libraries@[li as int]);
            assert(libraries@.take(li as int + 1) =~= libraries@.take(li as int).push(
                libraries@[li as int],
            ));
        }
        li = li + 1;
    }
    proof {
        assert(libraries@.take(libraries@.len() as int) =~= libraries@);
    }
    index
}

impl SelectedName {
    pub fn designator_name(&self) -> (r: &String)
        ensures
            *r == self.designator().name,
    {
        match self {
            SelectedName::Qualified(q) => &q.designator.name,
            SelectedName::Simple(d) => &d.name,
        }
    }

    pub fn designator_pos(&self) -> (r: SrcPos)
        ensures
            r == self.designator().pos,
    {
        match self {
            SelectedName::Qualified(q) => q.designator.pos,
            SelectedName::Simple(d) => d.pos,
        }
    }

    pub fn pos(&self) -> (r: SrcPos)
        ensures
            r == self.spec_pos(),
    {
        match self {
            SelectedName::Qualified(q) => q.pos,
            SelectedName::Simple(d) => d.pos,
        }
    }
}

fn set_selname_reference(n: SelectedName, reference: Option<SrcPos>) -> (r: SelectedName)
    ensures
        r == set_selname_ref(n, reference),
{
    match n {
        SelectedName::Qualified(q) => SelectedName::Qualified(
            QualifiedName {
                pos: q.pos,
                library_name: q.library_name,
                library_pos: q.library_pos,
                designator: Designator {
                    pos: q.designator.pos,
                    name: q.designator.name,
                    reference,
                },
            },
        ),
        SelectedName::Simple(d) => SelectedName::Simple(
            Designator { pos: d.pos, name: d.name, reference },
        ),
    }
}

/// The spec context a unit's statements are resolved in.
pub open spec fn ctx_of(libs: Seq<Library>, li: int, components: Seq<Declaration>) -> ResolveCtx {
    ResolveCtx {
        libs,
        own_name: libs[li].name@,
        own_units: libs[li].units@,
        components,
    }
}

/// Index entries for the components of one declarative part.
fn extract_components(decls: &Vec<Declaration>, i: usize) -> (r: Vec<PrimaryEntry>)
    requires
        i <= decls@.len(),
    ensures
        forall|n: Seq<char>|
            #[trigger] entry_lookup_spec(r@, n) == component_lookup(decls@.skip(i as int), n),
    decreases decls@.len() - i,
{
    if i == decls.len() {
        let r: Vec<PrimaryEntry> = Vec::new();
        proof {
            assert(decls@.skip(i as int) =~= Seq::<Declaration>::empty());
        }
        r
    } else {
        let rest = extract_components(decls, i + 1);
        proof {
            assert(decls@.skip(i as int)[0] == decls@[i as int]);
            assert(decls@.skip(i as int).drop_first() =~= decls@.skip(i as int + 1));
        }
        match &decls[i] {
            Declaration::Component(c) => {
                let entry = PrimaryEntry { name: c.ident.name.clone(), pos: c.ident.pos };
                let ghost entry_snap = entry;
                let ghost rest_view = rest@;
                let mut out: Vec<PrimaryEntry> = Vec::new();
                out.push(entry);
                let mut tail = rest;
                out.append(&mut tail);
                proof {
                    assert(out@ =~= seq![entry_snap] + rest_view);
                    assert forall|n: Seq<char>|
                        #[trigger] entry_lookup_spec(out@, n) == component_lookup(
                            decls@.skip(i as int),
                            n,
                        ) by {
                        assert(out@[0] == entry_snap);
                        assert(out@.drop_first() =~= rest_view);
                        assert(entry_lookup_spec(rest_view, n) == component_lookup(
                            decls@.skip(i as int + 1),
                            n,
                        ));
                        assert(decls@.skip(i as int) =~= seq![decls@[i as int]] + decls@.skip(
                            i as int + 1,
                        ));
                    }
                }
                out
            },
            _ => rest,
        }
    }
}

/// Registers every component of a declarative part as its own first
/// reference; other declarations pass through untouched.
fn register_decls(decls: Vec<Declaration>) -> (r: Vec<Declaration>)
    ensures
        decl_list_occs(r@) == registered_decl_list_occs(decls@),
        same_skel_decl_list(decls@, r@),
    decreases decls@.len(),
{
    let mut remaining = decls;
    if remaining.len() == 0 {
        proof {
            assert(decl_list_occs(remaining@) =~= registered_decl_list_occs(decls@));
        }
        remaining
    } else {
        let first = remaining.remove(0);
        proof {
            assert(remaining@ =~= decls@.drop_first());
        }
        let rfirst = match first {
            Declaration::Component(c) => Declaration::Component(
                crate::ast::ComponentDeclaration {
                    ident: Designator {
                        pos: c.ident.pos,
                        name: c.ident.name,
                        reference: Some(c.ident.pos),
                    },
                },
            ),
            other => other,
        };
        let rest = register_decls(remaining);
        let ghost rfirst_snap = rfirst;
        let ghost rest_view = rest@;
        let mut out: Vec<Declaration> = Vec::new();
        out.push(rfirst);
        let mut tail = rest;
        out.append(&mut tail);
        proof {
            assert(out@ =~= seq![rfirst_snap] + rest_view);
            assert(out@[0] == rfirst_snap);
            assert(out@.drop_first() =~= rest_view);
            assert(decl_occs(rfirst_snap) == registered_decl_occs(decls@[0]));
            assert(decl_list_occs(out@) =~= registered_decl_list_occs(decls@));
        }
        out
    }
}

/// Resolves a name that must denote a primary unit, reporting the library
/// it was searched in when it is missing.
fn resolve_primary_selname(
    n: SelectedName,
    index: &Vec<LibraryIndex>,
    own_li: usize,
    diagnostics: &mut Vec<Diagnostic>,
    Ghost(libs): Ghost<Seq<Library>>,
) -> (r: SelectedName)
    requires
        index_matches(index@, libs),
        own_li < index@.len(),
    ensures
        ({
            let res = resolve_primary_reference(
                n,
                libs,
                libs[own_li as int].name@,
                libs[own_li as int].units@,
            );
            &&& r == set_selname_ref(n, res.reference)
            &&& diag_views(final(diagnostics)@) == diag_views(old(diagnostics)@) + opt_diag_seq(
                res.diag,
            )
        }),
{
    let ghost own_units = libs[own_li as int].units@;
    let target: Option<usize> = match &n {
        SelectedName::Simple(_) => Some(own_li),
        SelectedName::Qualified(q) => {
            let work: String = String::from_str("work");
            if q.library_name == work {
                Some(own_li)
            } else {
                proof {
                    assert(libs.skip(0) =~= libs);
                }
                find_library(index, 0, &q.library_name, Ghost(libs))
            }
        },
    };
    match target {
        Some(ti) => {
            let looked = entry_lookup(&index[ti].entries, 0, n.designator_name());
            proof {
                assert(index@[ti as int].entries@.skip(0) =~= index@[ti as int].entries@);
            }
            match looked {
                Some(p) => set_selname_reference(n, Some(p)),
                None => {
                    let dpos = n.designator_pos();
                    let message = build_no_primary_unit(n.designator_name(), &index[ti].name);
                    let ghost diags_before = diagnostics@;
                    diagnostics.push(Diagnostic::error(dpos, message));
                    proof {
                        assert(diag_views(diagnostics@) =~= diag_views(diags_before).push(
                            diagnostics@.last()@,
                        ));
                    }
                    set_selname_reference(n, None)
                },
            }
        },
        None => {
            let dpos = n.designator_pos();
            let library_name = match &n {
                SelectedName::Qualified(q) => &q.library_name,
                SelectedName::Simple(_) => &index[own_li].name,
            };
            let message = build_no_primary_unit(n.designator_name(), library_name);
            let ghost diags_before = diagnostics@;
            diagnostics.push(Diagnostic::error(dpos, message));
            proof {
                assert(primary_lookup(Seq::<AnyDesignUnit>::empty(), n.designator().name@)
                    is None);
                assert(diag_views(diagnostics@) =~= diag_views(diags_before).push(
                    diagnostics@.last()@,
                ));
            }
            set_selname_reference(n, None)
        },
    }
}

/// Resolves a component instantiation against the enclosing unit's own
/// declarative part.
fn resolve_component_selname(
    n: SelectedName,
    components: &Vec<PrimaryEntry>,
    diagnostics: &mut Vec<Diagnostic>,
    Ghost(component_decls): Ghost<Seq<Declaration>>,
) -> (r: SelectedName)
    requires
        forall|nm: Seq<char>|
            #[trigger] entry_lookup_spec(components@, nm) == component_lookup(component_decls, nm),
    ensures
        ({
            let res = resolve_component_reference(n, component_decls);
            &&& r == set_selname_ref(n, res.reference)
            &&& diag_views(final(diagnostics)@) == diag_views(old(diagnostics)@) + opt_diag_seq(
                res.diag,
            )
        }),
{
    let looked = entry_lookup(components, 0, n.designator_name());
    proof {
        assert(components@.skip(0) =~= components@);
    }
    match looked {
        Some(p) => set_selname_reference(n, Some(p)),
        None => {
            let dpos = n.designator_pos();
            let message = build_no_declaration(n.designator_name());
            let ghost diags_before = diagnostics@;
            diagnostics.push(Diagnostic::error(dpos, message));
            proof {
                assert(diag_views(diagnostics@) =~= diag_views(diags_before).push(
                    diagnostics@.last()@,
                ));
            }
            set_selname_reference(n, None)
        },
    }
}

/// Resolves a secondary unit's name for its primary unit within its own
/// library.
fn resolve_secondary_designator(
    d: Designator,
    index: &Vec<LibraryIndex>,
    own_li: usize,
    diagnostics: &mut Vec<Diagnostic>,
    Ghost(libs): Ghost<Seq<Library>>,
) -> (r: Designator)
    requires
        index_matches(index@, libs),
        own_li < index@.len(),
    ensures
        ({
            let res = resolve_secondary_reference(
                d,
                libs[own_li as int].name@,
                libs[own_li as int].units@,
            );
            &&& r == set_designator_ref(d, res.reference)
            &&& diag_views(final(diagnostics)@) == diag_views(old(diagnostics)@) + opt_diag_seq(
                res.diag,
            )
        }),
{
    let looked = entry_lookup(&index[own_li].entries, 0, &d.name);
    proof {
        assert(index@[own_li as int].entries@.skip(0) =~= index@[own_li as int].entries@);
    }
    match looked {
        Some(p) => Designator { pos: d.pos, name: d.name, reference: Some(p) },
        None => {
            let message = build_no_primary_unit(&d.name, &index[own_li].name);
            let ghost diags_before = diagnostics@;
            diagnostics.push(Diagnostic::error(d.pos, message));
            proof {
                assert(diag_views(diagnostics@) =~= diag_views(diags_before).push(
                    diagnostics@.last()@,
                ));
            }
            Designator { pos: d.pos, name: d.name, reference: None }
        },
    }
}

fn resolve_stmt(
    stmt: crate::ast::LabeledConcurrentStatement,
    index: &Vec<LibraryIndex>,
    own_li: usize,
    components: &Vec<PrimaryEntry>,
    diagnostics: &mut Vec<Diagnostic>,
    Ghost(libs): Ghost<Seq<Library>>,
    Ghost(component_decls): Ghost<Seq<Declaration>>,
) -> (r: crate::ast::LabeledConcurrentStatement)
    requires
        index_matches(index@, libs),
        own_li < index@.len(),
        forall|nm: Seq<char>|
            #[trigger] entry_lookup_spec(components@, nm) == component_lookup(component_decls, nm),
    ensures
        stmt_occs(r) == resolved_stmt_occs(stmt, ctx_of(libs, own_li as int, component_decls)),
        diag_views(final(diagnostics)@) == diag_views(old(diagnostics)@) + stmt_diags(
            stmt,
            ctx_of(libs, own_li as int, component_decls),
        ),
        same_skel_stmt(stmt, r),
    decreases stmt,
{
    let ghost ctx = ctx_of(libs, own_li as int, component_decls);
    let crate::ast::LabeledConcurrentStatement { label, statement } = stmt;
    let new_statement: crate::ast::ConcurrentStatement = match statement {
        crate::ast::ConcurrentStatement::Block(block) => {
            let crate::ast::BlockStatement { decl, statements } = block;
            let new_statements = resolve_stmt_list(
                statements,
                index,
                own_li,
                components,
                diagnostics,
                Ghost(libs),
                Ghost(component_decls),
            );
            crate::ast::ConcurrentStatement::Block(
                crate::ast::BlockStatement { decl, statements: new_statements },
            )
        },
        crate::ast::ConcurrentStatement::Process(process) => crate::ast::ConcurrentStatement::Process(
            process,
        ),
        crate::ast::ConcurrentStatement::ForGenerate(gen) => {
            let crate::ast::ForGenerateStatement { body } = gen;
            let new_body = resolve_genbody(
                body,
                index,
                own_li,
                components,
                diagnostics,
                Ghost(libs),
                Ghost(component_decls),
            );
            crate::ast::ConcurrentStatement::ForGenerate(
                crate::ast::ForGenerateStatement { body: new_body },
            )
        },
        crate::ast::ConcurrentStatement::IfGenerate(gen) => {
            let crate::ast::IfGenerateStatement { conditionals, else_item } = gen;
            let new_conditionals = resolve_genbody_list(
                conditionals,
                index,
                own_li,
                components,
                diagnostics,
                Ghost(libs),
                Ghost(component_decls),
            );
            let new_else: Option<crate::ast::GenerateBody> = match else_item {
                Some(body) => Some(
                    resolve_genbody(
                        body,
                        index,
                        own_li,
                        components,
                        diagnostics,
                        Ghost(libs),
                        Ghost(component_decls),
                    ),
                ),
                None => None,
            };
            crate::ast::ConcurrentStatement::IfGenerate(
                crate::ast::IfGenerateStatement {
                    conditionals: new_conditionals,
                    else_item: new_else,
                },
            )
        },
        crate::ast::ConcurrentStatement::CaseGenerate(gen) => {
            let crate::ast::CaseGenerateStatement { alternatives } = gen;
            let new_alternatives = resolve_genbody_list(
                alternatives,
                index,
                own_li,
                components,
                diagnostics,
                Ghost(libs),
                Ghost(component_decls),
            );
            crate::ast::ConcurrentStatement::CaseGenerate(
                crate::ast::CaseGenerateStatement { alternatives: new_alternatives },
            )
        },
        crate::ast::ConcurrentStatement::Instance(instance) => {
            let crate::ast::InstantiationStatement { unit, name } = instance;
            let new_name = match unit {
                crate::ast::InstantiatedUnit::Component => resolve_component_selname(
                    name,
                    components,
                    diagnostics,
                    Ghost(component_decls),
                ),
                _ => resolve_primary_selname(name, index, own_li, diagnostics, Ghost(libs)),
            };
            crate::ast::ConcurrentStatement::Instance(
                crate::ast::InstantiationStatement { unit, name: new_name },
            )
        },
        crate::ast::ConcurrentStatement::Other => crate::ast::ConcurrentStatement::Other,
    };
    crate::ast::LabeledConcurrentStatement { label, statement: new_statement }
}

fn resolve_stmt_list(
    stmts: Vec<crate::ast::LabeledConcurrentStatement>,
    index: &Vec<LibraryIndex>,
    own_li: usize,
    components: &Vec<PrimaryEntry>,
    diagnostics: &mut Vec<Diagnostic>,
    Ghost(libs): Ghost<Seq<Library>>,
    Ghost(component_decls): Ghost<Seq<Declaration>>,
) -> (r: Vec<crate::ast::LabeledConcurrentStatement>)
    requires
        index_matches(index@, libs),
        own_li < index@.len(),
        forall|nm: Seq<char>|
            #[trigger] entry_lookup_spec(components@, nm) == component_lookup(component_decls, nm),
    ensures
        stmt_list_occs(r@) == resolved_stmt_list_occs(
            stmts@,
            ctx_of(libs, own_li as int, component_decls),
        ),
        diag_views(final(diagnostics)@) == diag_views(old(diagnostics)@) + stmt_list_diags(
            stmts@,
            ctx_of(libs, own_li as int, component_decls),
        ),
        same_skel_stmt_list(stmts@, r@),
    decreases stmts@,
{
    let mut remaining = stmts;
    if remaining.len() == 0 {
        proof {
            assert(stmt_list_occs(remaining@) =~= resolved_stmt_list_occs(
                stmts@,
                ctx_of(libs, own_li as int, component_decls),
            ));
            assert(diag_views(diagnostics@) =~= diag_views(old(diagnostics)@) + stmt_list_diags(
                stmts@,
                ctx_of(libs, own_li as int, component_decls),
            ));
        }
        remaining
    } else {
        let first = remaining.remove(0);
        proof {
            assert(remaining@ =~= stmts@.drop_first());
            assert(decreases_to!(stmts@ => stmts@.drop_first()));
        }
        let rfirst = resolve_stmt(
            first,
            index,
            own_li,
            components,
            diagnostics,
            Ghost(libs),
            Ghost(component_decls),
        );
        let rest = resolve_stmt_list(
            remaining,
            index,
            own_li,
            components,
            diagnostics,
            Ghost(libs),
            Ghost(component_decls),
        );
        let ghost rfirst_snap = rfirst;
        let ghost rest_view = rest@;
        let mut out: Vec<crate::ast::LabeledConcurrentStatement> = Vec::new();
        out.push(rfirst);
        let mut tail = rest;
        out.append(&mut tail);
        proof {
            assert(out@ =~= seq![rfirst_snap] + rest_view);
            assert(out@[0] == rfirst_snap);
            assert(out@.drop_first() =~= rest_view);
            assert(stmt_list_occs(out@) =~= resolved_stmt_list_occs(
                stmts@,
                ctx_of(libs, own_li as int, component_decls),
            ));
        }
        out
    }
}

fn resolve_genbody(
    body: crate::ast::GenerateBody,
    index: &Vec<LibraryIndex>,
    own_li: usize,
    components: &Vec<PrimaryEntry>,
    diagnostics: &mut Vec<Diagnostic>,
    Ghost(libs): Ghost<Seq<Library>>,
    Ghost(component_decls): Ghost<Seq<Declaration>>,
) -> (r: crate::ast::GenerateBody)
    requires
        index_matches(index@, libs),
        own_li < index@.len(),
        forall|nm: Seq<char>|
            #[trigger] entry_lookup_spec(components@, nm) == component_lookup(component_decls, nm),
    ensures
        genbody_occs(r) == resolved_genbody_occs(
            body,
            ctx_of(libs, own_li as int, component_decls),
        ),
        diag_views(final(diagnostics)@) == diag_views(old(diagnostics)@) + genbody_diags(
            body,
            ctx_of(libs, own_li as int, component_decls),
        ),
        same_skel_genbody(body, r),
    decreases body,
{
    let crate::ast::GenerateBody { decl, statements } = body;
    let new_statements = resolve_stmt_list(
        statements,
        index,
        own_li,
        components,
        diagnostics,
        Ghost(libs),
        Ghost(component_decls),
    );
    crate::ast::GenerateBody { decl, statements: new_statements }
}

fn resolve_genbody_list(
    bodies: Vec<crate::ast::GenerateBody>,
    index: &Vec<LibraryIndex>,
    own_li: usize,
    components: &Vec<PrimaryEntry>,
    diagnostics: &mut Vec<Diagnostic>,
    Ghost(libs): Ghost<Seq<Library>>,
    Ghost(component_decls): Ghost<Seq<Declaration>>,
) -> (r: Vec<crate::ast::GenerateBody>)
    requires
        index_matches(index@, libs),
        own_li < index@.len(),
        forall|nm: Seq<char>|
            #[trigger] entry_lookup_spec(components@, nm) == component_lookup(component_decls, nm),
    ensures
        genbody_list_occs(r@) == resolved_genbody_list_occs(
            bodies@,
            ctx_of(libs, own_li as int, component_decls),
        ),
        diag_views(final(diagnostics)@) == diag_views(old(diagnostics)@) + genbody_list_diags(
            bodies@,
            ctx_of(libs, own_li as int, component_decls),
        ),
        same_skel_genbody_list(bodies@, r@),
    decreases bodies@,
{
    let mut remaining = bodies;
    if remaining.len() == 0 {
        proof {
            assert(genbody_list_occs(remaining@) =~= resolved_genbody_list_occs(
                bodies@,
                ctx_of(libs, own_li as int, component_decls),
            ));
            assert(diag_views(diagnostics@) =~= diag_views(old(diagnostics)@)
                + genbody_list_diags(bodies@, ctx_of(libs, own_li as int, component_decls)));
        }
        remaining
    } else {
        let first = remaining.remove(0);
        proof {
            assert(remaining@ =~= bodies@.drop_first());
            assert(decreases_to!(bodies@ => bodies@.drop_first()));
        }
        let rfirst = resolve_genbody(
            first,
            index,
            own_li,
            components,
            diagnostics,
            Ghost(libs),
            Ghost(component_decls),
        );
        let rest = resolve_genbody_list(
            remaining,
            index,
            own_li,
            components,
            diagnostics,
            Ghost(libs),
            Ghost(component_decls),
        );
        let ghost rfirst_snap = rfirst;
        let ghost rest_view = rest@;
        let mut out: Vec<crate::ast::GenerateBody> = Vec::new();
        out.push(rfirst);
        let mut tail = rest;
        out.append(&mut tail);
        proof {
            assert(out@ =~= seq![rfirst_snap] + rest_view);
            assert(out@[0] == rfirst_snap);
            assert(out@.drop_first() =~= rest_view);
            assert(genbody_list_occs(out@) =~= resolved_genbody_list_occs(
                bodies@,
                ctx_of(libs, own_li as int, component_decls),
            ));
        }
        out
    }
}

/// Second pass over one unit: register its declarations and resolve its
/// cross-unit references.
fn resolve_unit(
    u: AnyDesignUnit,
    index: &Vec<LibraryIndex>,
    own_li: usize,
    diagnostics: &mut Vec<Diagnostic>,
    Ghost(libs): Ghost<Seq<Library>>,
) -> (r: AnyDesignUnit)
    requires
        index_matches(index@, libs),
        own_li < index@.len(),
    ensures
        unit_occs(r) == resolved_unit_occs(
            u,
            libs,
            libs[own_li as int].name@,
            libs[own_li as int].units@,
        ),
        diag_views(final(diagnostics)@) == diag_views(old(diagnostics)@) + unit_diag_seq(
            u,
            libs,
            libs[own_li as int].name@,
            libs[own_li as int].units@,
        ),
        same_skel_unit(u, r),
{
    let ghost own_name = libs[own_li as int].name@;
    let ghost own_units = libs[own_li as int].units@;
    match u {
        AnyDesignUnit::Entity(e) => {
            let crate::ast::EntityUnit {
                source,
                ident,
                generic_clause,
                port_clause,
                decl,
                statements,
            } = e;
            let ghost component_decls = decl@;
            let components = extract_components(&decl, 0);
            proof {
                assert(decl@.skip(0) =~= decl@);
            }
            let new_ident = Designator {
                pos: ident.pos,
                name: ident.name,
                reference: Some(ident.pos),
            };
            let new_decl = register_decls(decl);
            let new_statements = resolve_stmt_list(
                statements,
                index,
                own_li,
                &components,
                diagnostics,
                Ghost(libs),
                Ghost(component_decls),
            );
            let r = AnyDesignUnit::Entity(
                crate::ast::EntityUnit {
                    source,
                    ident: new_ident,
                    generic_clause,
                    port_clause,
                    decl: new_decl,
                    statements: new_statements,
                },
            );
            proof {
                assert(unit_occs(r) =~= resolved_unit_occs(u, libs, own_name, own_units));
            }
            r
        },
        AnyDesignUnit::Architecture(a) => {
            let crate::ast::ArchitectureUnit { source, ident, entity_name, decl, statements } = a;
            let ghost component_decls = decl@;
            let components = extract_components(&decl, 0);
            proof {
                assert(decl@.skip(0) =~= decl@);
            }
            let new_ident = Designator {
                pos: ident.pos,
                name: ident.name,
                reference: Some(ident.pos),
            };
            let new_entity_name = resolve_secondary_designator(
                entity_name,
                index,
                own_li,
                diagnostics,
                Ghost(libs),
            );
            let new_decl = register_decls(decl);
            let new_statements = resolve_stmt_list(
                statements,
                index,
                own_li,
                &components,
                diagnostics,
                Ghost(libs),
                Ghost(component_decls),
            );
            let r = AnyDesignUnit::Architecture(
                crate::ast::ArchitectureUnit {
                    source,
                    ident: new_ident,
                    entity_name: new_entity_name,
                    decl: new_decl,
                    statements: new_statements,
                },
            );
            proof {
                assert(unit_occs(r) =~= resolved_unit_occs(u, libs, own_name, own_units));
            }
            r
        },
        AnyDesignUnit::Configuration(c) => {
            let ConfigurationUnit { source, ident, entity_name } = c;
            let work: String = String::from_str("work");
            let foreign: bool = match &entity_name {
                SelectedName::Qualified(q) => !(q.library_name == work || q.library_name
                    == index[own_li].name),
                SelectedName::Simple(_) => false,
            };
            let new_entity_name: SelectedName = if foreign {
                let npos = entity_name.pos();
                let message = build_foreign_library(&index[own_li].name);
                let ghost diags_before = diagnostics@;
                diagnostics.push(Diagnostic::error(npos, message));
                proof {
                    assert(diag_views(diagnostics@) =~= diag_views(diags_before).push(
                        diagnostics@.last()@,
                    ));
                }
                set_selname_reference(entity_name, None)
            } else {
                let looked = entry_lookup(&index[own_li].entries, 0, entity_name.designator_name());
                proof {
                    assert(index@[own_li as int].entries@.skip(0) =~= index@[own_li
                        as int].entries@);
                }
                match looked {
                    None => {
                        let dpos = entity_name.designator_pos();
                        let message = build_no_declaration(entity_name.designator_name());
                        let ghost diags_before = diagnostics@;
                        diagnostics.push(Diagnostic::error(dpos, message));
                        proof {
                            assert(diag_views(diagnostics@) =~= diag_views(diags_before).push(
                                diagnostics@.last()@,
                            ));
                        }
                        set_selname_reference(entity_name, None)
                    },
                    Some(p) => {
                        if p.source == source && ident.pos.start < p.start {
                            let message = build_declared_before(
                                &ident.name,
                                entity_name.designator_name(),
                            );
                            let ghost diags_before = diagnostics@;
                            diagnostics.push(Diagnostic::error(ident.pos, message));
                            proof {
                                assert(diag_views(diagnostics@) =~= diag_views(
                                    diags_before,
                                ).push(diagnostics@.last()@));
                            }
                            set_selname_reference(entity_name, None)
                        } else {
                            set_selname_reference(entity_name, Some(p))
                        }
                    },
                }
            };
            let new_ident = Designator {
                pos: ident.pos,
                name: ident.name,
                reference: Some(ident.pos),
            };
            let r = AnyDesignUnit::Configuration(
                ConfigurationUnit { source, ident: new_ident, entity_name: new_entity_name },
            );
            proof {
                assert(unit_occs(r) =~= resolved_unit_occs(u, libs, own_name, own_units));
                assert(diag_views(diagnostics@) =~= diag_views(old(diagnostics)@)
                    + unit_diag_seq(u, libs, own_name, own_units));
            }
            r
        },
        AnyDesignUnit::Package(p) => {
            let crate::ast::PackageUnit { source, ident, generic_clause, decl } = p;
            let new_ident = Designator {
                pos: ident.pos,
                name: ident.name,
                reference: Some(ident.pos),
            };
            let new_decl = register_decls(decl);
            let r = AnyDesignUnit::Package(
                crate::ast::PackageUnit {
                    source,
                    ident: new_ident,
                    generic_clause,
                    decl: new_decl,
                },
            );
            proof {
                assert(unit_occs(r) =~= resolved_unit_occs(u, libs, own_name, own_units));
            }
            r
        },
        AnyDesignUnit::PackageBody(b) => {
            let crate::ast::PackageBodyUnit { source, ident, decl } = b;
            let new_ident = resolve_secondary_designator(
                ident,
                index,
                own_li,
                diagnostics,
                Ghost(libs),
            );
            let new_decl = register_decls(decl);
            let r = AnyDesignUnit::PackageBody(
                crate::ast::PackageBodyUnit { source, ident: new_ident, decl: new_decl },
            );
            proof {
                assert(unit_occs(r) =~= resolved_unit_occs(u, libs, own_name, own_units));
            }
            r
        },
        AnyDesignUnit::PackageInstance(i) => {
            let crate::ast::PackageInstanceUnit { source, ident, package_name } = i;
            let new_ident = Designator {
                pos: ident.pos,
                name: ident.name,
                reference: Some(ident.pos),
            };
            let new_package_name = resolve_primary_selname(
                package_name,
                index,
                own_li,
                diagnostics,
                Ghost(libs),
            );
            let r = AnyDesignUnit::PackageInstance(
                crate::ast::PackageInstanceUnit {
                    source,
                    ident: new_ident,
                    package_name: new_package_name,
                },
            );
            proof {
                assert(unit_occs(r) =~= resolved_unit_occs(u, libs, own_name, own_units));
            }
            r
        },
    }
}

fn resolve_unit_list(
    units: Vec<AnyDesignUnit>,
    index: &Vec<LibraryIndex>,
    own_li: usize,
    diagnostics: &mut Vec<Diagnostic>,
    Ghost(libs): Ghost<Seq<Library>>,
) -> (r: Vec<AnyDesignUnit>)
    requires
        index_matches(index@, libs),
        own_li < index@.len(),
    ensures
        unit_list_occs(r@) == resolved_unit_list_occs(
            units@,
            libs,
            libs[own_li as int].name@,
            libs[own_li as int].units@,
        ),
        diag_views(final(diagnostics)@) == diag_views(old(diagnostics)@) + unit_list_diags(
            units@,
            libs,
            libs[own_li as int].name@,
            libs[own_li as int].units@,
        ),
        same_skel_unit_list(units@, r@),
    decreases units@.len(),
{
    let ghost own_name = libs[own_li as int].name@;
    let ghost own_units = libs[own_li as int].units@;
    let mut remaining = units;
    if remaining.len() == 0 {
        proof {
            assert(unit_list_occs(remaining@) =~= resolved_unit_list_occs(
                units@,
                libs,
                own_name,
                own_units,
            ));
            assert(diag_views(diagnostics@) =~= diag_views(old(diagnostics)@) + unit_list_diags(
                units@,
                libs,
                own_name,
                own_units,
            ));
        }
        remaining
    } else {
        let first = remaining.remove(0);
        proof {
            assert(remaining@ =~= units@.drop_first());
        }
        let rfirst = resolve_unit(first, index, own_li, diagnostics, Ghost(libs));
        let rest = resolve_unit_list(remaining, index, own_li, diagnostics, Ghost(libs));
        let ghost rfirst_snap = rfirst;
        let ghost rest_view = rest@;
        let mut out: Vec<AnyDesignUnit> = Vec::new();
        out.push(rfirst);
        let mut tail = rest;
        out.append(&mut tail);
        proof {
            assert(out@ =~= seq![rfirst_snap] + rest_view);
            assert(out@[0] == rfirst_snap);
            assert(out@.drop_first() =~= rest_view);
            assert(unit_list_occs(out@) =~= resolved_unit_list_occs(
                units@,
                libs,
                own_name,
                own_units,
            ));
        }
        out
    }
}

fn resolve_library(
    lib: Library,
    index: &Vec<LibraryIndex>,
    own_li: usize,
    diagnostics: &mut Vec<Diagnostic>,
    Ghost(libs): Ghost<Seq<Library>>,
) -> (r: Library)
    requires
        index_matches(index@, libs),
        own_li < index@.len(),
        lib == libs[own_li as int],
    ensures
        r.name == lib.name,
        unit_list_occs(r.units@) == resolved_unit_list_occs(
            libs[own_li as int].units@,
            libs,
            libs[own_li as int].name@,
            libs[own_li as int].units@,
        ),
        diag_views(final(diagnostics)@) == diag_views(old(diagnostics)@) + unit_list_diags(
            libs[own_li as int].units@,
            libs,
            libs[own_li as int].name@,
            libs[own_li as int].units@,
        ),
        same_skel_unit_list(libs[own_li as int].units@, r.units@),
{
    let Library { name, units } = lib;
    let new_units = resolve_unit_list(units, index, own_li, diagnostics, Ghost(libs));
    Library { name, units: new_units }
}

fn resolve_lib_list(
    remaining: Vec<Library>,
    li: usize,
    index: &Vec<LibraryIndex>,
    diagnostics: &mut Vec<Diagnostic>,
    Ghost(libs): Ghost<Seq<Library>>,
) -> (r: Vec<Library>)
    requires
        index_matches(index@, libs),
        li <= libs.len(),
        libs.len() <= usize::MAX,
        remaining@ == libs.skip(li as int),
    ensures
        lib_list_occs(r@) == resolved_lib_list_occs(libs.skip(li as int), libs),
        diag_views(final(diagnostics)@) == diag_views(old(diagnostics)@) + lib_list_res_diags(
            libs.skip(li as int),
            libs,
        ),
        same_skel_lib_list(libs.skip(li as int), r@),
    decreases remaining@.len(),
{
    let mut remaining = remaining;
    if remaining.len() == 0 {
        proof {
            assert(lib_list_occs(remaining@) =~= resolved_lib_list_occs(
                libs.skip(li as int),
                libs,
            ));
            assert(diag_views(diagnostics@) =~= diag_views(old(diagnostics)@)
                + lib_list_res_diags(libs.skip(li as int), libs));
        }
        remaining
    } else {
        let first = remaining.remove(0);
        proof {
            assert(libs.skip(li as int)[0] == libs[li as int]);
            assert(first == libs[li as int]);
            assert(remaining@ =~= libs.skip(li as int).drop_first());
            assert(remaining@ =~= libs.skip(li as int + 1));
        }
        let rlib = resolve_library(first, index, li, diagnostics, Ghost(libs));
        let rest = resolve_lib_list(remaining, li + 1, index, diagnostics, Ghost(libs));
        let ghost rlib_snap = rlib;
        let ghost rest_view = rest@;
        let mut out: Vec<Library> = Vec::new();
        out.push(rlib);
        let mut tail = rest;
        out.append(&mut tail);
        proof {
            assert(out@ =~= seq![rlib_snap] + rest_view);
            assert(out@[0] == rlib_snap);
            assert(out@.drop_first() =~= rest_view);
            assert(lib_list_occs(out@) =~= resolved_lib_list_occs(libs.skip(li as int), libs));
        }
        out
    }
}

impl DesignRoot {
    /// The resolution entry point: fills every reference slot the rules
    /// bind and returns one diagnostic per violation, in deterministic
    /// order.  What the slots hold afterwards is exactly
    /// [`root_resolved_occs`] of the input, and the diagnostics are
    /// exactly [`root_diag_model`] of the input.
    pub fn analyze(&mut self) -> (diagnostics: Vec<Diagnostic>)
        ensures
            root_occs(*final(self)) == root_resolved_occs(*old(self)),
            diag_views(diagnostics@) == root_diag_model(*old(self)),
            same_skel_root(*old(self), *final(self)),
    {
        let ghost orig = *self;
        let mut diagnostics: Vec<Diagnostic> = Vec::new();
        let index = build_root_index(&self.libraries, &mut diagnostics);
        let mut libs_vec: Vec<Library> = Vec::new();
        core::mem::swap(&mut libs_vec, &mut self.libraries);
        let n = libs_vec.len();
        proof {
            assert(orig.libraries@.len() == n as int);
            assert(libs_vec@ =~= orig.libraries@.skip(0));
        }
        let new_libs = resolve_lib_list(
            libs_vec,
            0,
            &index,
            &mut diagnostics,
            Ghost(orig.libraries@),
        );
        self.libraries = new_libs;
        proof {
            assert(orig.libraries@.skip(0) =~= orig.libraries@);
            assert(root_occs(*self) =~= root_resolved_occs(orig));
            assert(diag_views(diagnostics@) =~= root_diag_model(orig));
        }
        diagnostics
    }
}

/// The resolver rewrites only reference slots: afterwards the tree has
/// the same shape, names and positions as before.  These relations state
/// that two trees agree on everything resolution reads.
pub open spec fn same_skel_designator(a: Designator, b: Designator) -> bool {
    b.pos == a.pos && b.name == a.name
}

pub open spec fn same_skel_selname(a: SelectedName, b: SelectedName) -> bool {
    match (a, b) {
        (SelectedName::Qualified(qa), SelectedName::Qualified(qb)) => qb.pos == qa.pos
            && qb.library_name == qa.library_name && qb.library_pos == qa.library_pos
            && same_skel_designator(qa.designator, qb.designator),
        (SelectedName::Simple(da), SelectedName::Simple(db)) => same_skel_designator(da, db),
        _ => false,
    }
}

pub open spec fn same_skel_decl(a: Declaration, b: Declaration) -> bool {
    match (a, b) {
        (Declaration::Component(ca), Declaration::Component(cb)) => same_skel_designator(
            ca.ident,
            cb.ident,
        ),
        _ => b == a,
    }
}

pub open spec fn same_skel_decl_list(a: Seq<Declaration>, b: Seq<Declaration>) -> bool
    decreases a.len(),
{
    if a.len() != b.len() {
        false
    } else if a.len() == 0 {
        true
    } else {
        same_skel_decl(a[0], b[0]) && same_skel_decl_list(a.drop_first(), b.drop_first())
    }
}

pub open spec fn same_skel_conc(
    a: crate::ast::ConcurrentStatement,
    b: crate::ast::ConcurrentStatement,
) -> bool
    decreases a, 0int,
{
    match (a, b) {
        (crate::ast::ConcurrentStatement::Block(ba), crate::ast::ConcurrentStatement::Block(bb)) => bb.decl
            == ba.decl && same_skel_stmt_list(ba.statements@, bb.statements@),
        (
            crate::ast::ConcurrentStatement::Process(pa),
            crate::ast::ConcurrentStatement::Process(pb),
        ) => pb == pa,
        (
            crate::ast::ConcurrentStatement::ForGenerate(ga),
            crate::ast::ConcurrentStatement::ForGenerate(gb),
        ) => same_skel_genbody(ga.body, gb.body),
        (
            crate::ast::ConcurrentStatement::IfGenerate(ga),
            crate::ast::ConcurrentStatement::IfGenerate(gb),
        ) => same_skel_genbody_list(ga.conditionals@, gb.conditionals@) && (match (
            ga.else_item,
            gb.else_item,
        ) {
            (Some(ea), Some(eb)) => same_skel_genbody(ea, eb),
            (None, None) => true,
            _ => false,
        }),
        (
            crate::ast::ConcurrentStatement::CaseGenerate(ga),
            crate::ast::ConcurrentStatement::CaseGenerate(gb),
        ) => same_skel_genbody_list(ga.alternatives@, gb.alternatives@),
        (
            crate::ast::ConcurrentStatement::Instance(ia),
            crate::ast::ConcurrentStatement::Instance(ib),
        ) => ib.unit == ia.unit && same_skel_selname(ia.name, ib.name),
        (crate::ast::ConcurrentStatement::Other, crate::ast::ConcurrentStatement::Other) => true,
        _ => false,
    }
}

pub open spec fn same_skel_stmt(
    a: crate::ast::LabeledConcurrentStatement,
    b: crate::ast::LabeledConcurrentStatement,
) -> bool
    decreases a, 1int,
{
    b.label == a.label && same_skel_conc(a.statement, b.statement)
}

pub open spec fn same_skel_stmt_list(
    a: Seq<crate::ast::LabeledConcurrentStatement>,
    b: Seq<crate::ast::LabeledConcurrentStatement>,
) -> bool
    decreases a, 2int,
{
    if a.len() != b.len() {
        false
    } else if a.len() == 0 {
        true
    } else {
        same_skel_stmt(a[0], b[0]) && same_skel_stmt_list(a.drop_first(), b.drop_first())
    }
}

pub open spec fn same_skel_genbody(a: crate::ast::GenerateBody, b: crate::ast::GenerateBody)
    -> bool
    decreases a, 3int,
{
    b.decl == a.decl && same_skel_stmt_list(a.statements@, b.statements@)
}

pub open spec fn same_skel_genbody_list(
    a: Seq<crate::ast::GenerateBody>,
    b: Seq<crate::ast::GenerateBody>,
) -> bool
    decreases a, 4int,
{
    if a.len() != b.len() {
        false
    } else if a.len() == 0 {
        true
    } else {
        same_skel_genbody(a[0], b[0]) && same_skel_genbody_list(a.drop_first(), b.drop_first())
    }
}

pub open spec fn same_skel_unit(a: AnyDesignUnit, b: AnyDesignUnit) -> bool {
    match (a, b) {
        (AnyDesignUnit::Entity(ea), AnyDesignUnit::Entity(eb)) => eb.source == ea.source
            && same_skel_designator(ea.ident, eb.ident) && eb.generic_clause == ea.generic_clause
            && eb.port_clause == ea.port_clause && same_skel_decl_list(ea.decl@, eb.decl@)
            && same_skel_stmt_list(ea.statements@, eb.statements@),
        (AnyDesignUnit::Architecture(aa), AnyDesignUnit::Architecture(ab)) => ab.source
            == aa.source && same_skel_designator(aa.ident, ab.ident) && same_skel_designator(
            aa.entity_name,
            ab.entity_name,
        ) && same_skel_decl_list(aa.decl@, ab.decl@) && same_skel_stmt_list(
            aa.statements@,
            ab.statements@,
        ),
        (AnyDesignUnit::Configuration(ca), AnyDesignUnit::Configuration(cb)) => cb.source
            == ca.source && same_skel_designator(ca.ident, cb.ident) && same_skel_selname(
            ca.entity_name,
            cb.entity_name,
        ),
        (AnyDesignUnit::Package(pa), AnyDesignUnit::Package(pb)) => pb.source == pa.source
            && same_skel_designator(pa.ident, pb.ident) && pb.generic_clause == pa.generic_clause
            && same_skel_decl_list(pa.decl@, pb.decl@),
        (AnyDesignUnit::PackageBody(ba), AnyDesignUnit::PackageBody(bb)) => bb.source == ba.source
            && same_skel_designator(ba.ident, bb.ident) && same_skel_decl_list(ba.decl@, bb.decl@),
        (AnyDesignUnit::PackageInstance(ia), AnyDesignUnit::PackageInstance(ib)) => ib.source
            == ia.source && same_skel_designator(ia.ident, ib.ident) && same_skel_selname(
            ia.package_name,
            ib.package_name,
        ),
        _ => false,
    }
}

pub open spec fn same_skel_unit_list(a: Seq<AnyDesignUnit>, b: Seq<AnyDesignUnit>) -> bool
    decreases a.len(),
{
    if a.len() != b.len() {
        false
    } else if a.len() == 0 {
        true
    } else {
        same_skel_unit(a[0], b[0]) && same_skel_unit_list(a.drop_first(), b.drop_first())
    }
}

pub open spec fn same_skel_lib_list(a: Seq<Library>, b: Seq<Library>) -> bool
    decreases a.len(),
{
    if a.len() != b.len() {
        false
    } else if a.len() == 0 {
        true
    } else {
        b[0].name == a[0].name && same_skel_unit_list(a[0].units@, b[0].units@)
            && same_skel_lib_list(a.drop_first(), b.drop_first())
    }
}

pub open spec fn same_skel_root(a: DesignRoot, b: DesignRoot) -> bool {
    same_skel_lib_list(a.libraries@, b.libraries@)
}

proof fn lemma_skel_primary_lookup(a: Seq<AnyDesignUnit>, b: Seq<AnyDesignUnit>, n: Seq<char>)
    requires
        same_skel_unit_list(a, b),
    ensures
        primary_lookup(b, n) == primary_lookup(a, n),
    decreases a.len(),
{
    if a.len() > 0 {
        lemma_skel_primary_lookup(a.drop_first(), b.drop_first(), n);
    }
}

proof fn lemma_skel_library_units(a: Seq<Library>, b: Seq<Library>, n: Seq<char>)
    requires
        same_skel_lib_list(a, b),
    ensures
        (library_units(a, n) is Some) == (library_units(b, n) is Some),
        library_units(a, n) is Some ==> same_skel_unit_list(
            library_units(a, n).unwrap(),
            library_units(b, n).unwrap(),
        ),
    decreases a.len(),
{
    if a.len() > 0 {
        lemma_skel_library_units(a.drop_first(), b.drop_first(), n);
    }
}

proof fn lemma_skel_component_lookup(a: Seq<Declaration>, b: Seq<Declaration>, n: Seq<char>)
    requires
        same_skel_decl_list(a, b),
    ensures
        component_lookup(b, n) == component_lookup(a, n),
    decreases a.len(),
{
    if a.len() > 0 {
        lemma_skel_component_lookup(a.drop_first(), b.drop_first(), n);
    }
}

proof fn lemma_skel_resolve_primary(
    na: SelectedName,
    nb: SelectedName,
    libsa: Seq<Library>,
    libsb: Seq<Library>,
    own_name: Seq<char>,
    ua: Seq<AnyDesignUnit>,
    ub: Seq<AnyDesignUnit>,
)
    requires
        same_skel_selname(na, nb),
        same_skel_lib_list(libsa, libsb),
        same_skel_unit_list(ua, ub),
    ensures
        resolve_primary_reference(nb, libsb, own_name, ub) == resolve_primary_reference(
            na,
            libsa,
            own_name,
            ua,
        ),
{
    let da = na.designator();
    match na {
        SelectedName::Simple(_) => {
            lemma_skel_primary_lookup(ua, ub, da.name@);
        },
        SelectedName::Qualified(qa) => {
            if qa.library_name@ == "work"@ {
                lemma_skel_primary_lookup(ua, ub, da.name@);
            } else {
                lemma_skel_library_units(libsa, libsb, qa.library_name@);
                match library_units(libsa, qa.library_name@) {
                    Some(ta) => {
                        lemma_skel_primary_lookup(
                            ta,
                            library_units(libsb, qa.library_name@).unwrap(),
                            da.name@,
                        );
                    },
                    None => {},
                }
            }
        },
    }
}

proof fn lemma_skel_resolve_secondary(
    da: Designator,
    db: Designator,
    own_name: Seq<char>,
    ua: Seq<AnyDesignUnit>,
    ub: Seq<AnyDesignUnit>,
)
    requires
        same_skel_designator(da, db),
        same_skel_unit_list(ua, ub),
    ensures
        resolve_secondary_reference(db, own_name, ub) == resolve_secondary_reference(
            da,
            own_name,
            ua,
        ),
{
    lemma_skel_primary_lookup(ua, ub, da.name@);
}

proof fn lemma_skel_resolve_configuration(
    ca: ConfigurationUnit,
    cb: ConfigurationUnit,
    own_name: Seq<char>,
    ua: Seq<AnyDesignUnit>,
    ub: Seq<AnyDesignUnit>,
)
    requires
        cb.source == ca.source,
        same_skel_designator(ca.ident, cb.ident),
        same_skel_selname(ca.entity_name, cb.entity_name),
    ensures
        same_skel_unit_list(ua, ub) ==> resolve_configuration_entity(cb, own_name, ub)
            == resolve_configuration_entity(ca, own_name, ua),
{
    if same_skel_unit_list(ua, ub) {
        lemma_skel_primary_lookup(ua, ub, ca.entity_name.designator().name@);
    }
}

spec fn skel_ctx(ca: ResolveCtx, cb: ResolveCtx) -> bool {
    &&& same_skel_lib_list(ca.libs, cb.libs)
    &&& cb.own_name == ca.own_name
    &&& same_skel_unit_list(ca.own_units, cb.own_units)
    &&& same_skel_decl_list(ca.components, cb.components)
}

proof fn lemma_skel_conc(
    a: crate::ast::ConcurrentStatement,
    b: crate::ast::ConcurrentStatement,
    ca: ResolveCtx,
    cb: ResolveCtx,
)
    requires
        same_skel_conc(a, b),
        skel_ctx(ca, cb),
    ensures
        resolved_conc_occs(b, cb) == resolved_conc_occs(a, ca),
        conc_diags(b, cb) == conc_diags(a, ca),
    decreases a, 0int,
{
    match (a, b) {
        (
            crate::ast::ConcurrentStatement::Block(ba),
            crate::ast::ConcurrentStatement::Block(bb),
        ) => {
            lemma_skel_stmt_list(ba.statements@, bb.statements@, ca, cb);
        },
        (
            crate::ast::ConcurrentStatement::ForGenerate(ga),
            crate::ast::ConcurrentStatement::ForGenerate(gb),
        ) => {
            lemma_skel_genbody(ga.body, gb.body, ca, cb);
        },
        (
            crate::ast::ConcurrentStatement::IfGenerate(ga),
            crate::ast::ConcurrentStatement::IfGenerate(gb),
        ) => {
            lemma_skel_genbody_list(ga.conditionals@, gb.conditionals@, ca, cb);
            match (ga.else_item, gb.else_item) {
                (Some(ea), Some(eb)) => {
                    lemma_skel_genbody(ea, eb, ca, cb);
                },
                _ => {},
            }
        },
        (
            crate::ast::ConcurrentStatement::CaseGenerate(ga),
            crate::ast::ConcurrentStatement::CaseGenerate(gb),
        ) => {
            lemma_skel_genbody_list(ga.alternatives@, gb.alternatives@, ca, cb);
        },
        (
            crate::ast::ConcurrentStatement::Instance(ia),
            crate::ast::ConcurrentStatement::Instance(ib),
        ) => {
            match ia.unit {
                crate::ast::InstantiatedUnit::Component => {
                    lemma_skel_component_lookup(
                        ca.components,
                        cb.components,
                        ia.name.designator().name@,
                    );
                },
                _ => {
                    lemma_skel_resolve_primary(
                        ia.name,
                        ib.name,
                        ca.libs,
                        cb.libs,
                        ca.own_name,
                        ca.own_units,
                        cb.own_units,
                    );
                },
            }
        },
        _ => {},
    }
}

proof fn lemma_skel_stmt(
    a: crate::ast::LabeledConcurrentStatement,
    b: crate::ast::LabeledConcurrentStatement,
    ca: ResolveCtx,
    cb: ResolveCtx,
)
    requires
        same_skel_stmt(a, b),
        skel_ctx(ca, cb),
    ensures
        resolved_stmt_occs(b, cb) == resolved_stmt_occs(a, ca),
        stmt_diags(b, cb) == stmt_diags(a, ca),
    decreases a, 1int,
{
    lemma_skel_conc(a.statement, b.statement, ca, cb);
}

proof fn lemma_skel_stmt_list(
    a: Seq<crate::ast::LabeledConcurrentStatement>,
    b: Seq<crate::ast::LabeledConcurrentStatement>,
    ca: ResolveCtx,
    cb: ResolveCtx,
)
    requires
        same_skel_stmt_list(a, b),
        skel_ctx(ca, cb),
    ensures
        resolved_stmt_list_occs(b, cb) == resolved_stmt_list_occs(a, ca),
        stmt_list_diags(b, cb) == stmt_list_diags(a, ca),
    decreases a, 2int,
{
    if a.len() > 0 {
        lemma_skel_stmt(a[0], b[0], ca, cb);
        lemma_skel_stmt_list(a.drop_first(), b.drop_first(), ca, cb);
    }
}

proof fn lemma_skel_genbody(
    a: crate::ast::GenerateBody,
    b: crate::ast::GenerateBody,
    ca: ResolveCtx,
    cb: ResolveCtx,
)
    requires
        same_skel_genbody(a, b),
        skel_ctx(ca, cb),
    ensures
        resolved_genbody_occs(b, cb) == resolved_genbody_occs(a, ca),
        genbody_diags(b, cb) == genbody_diags(a, ca),
    decreases a, 3int,
{
    lemma_skel_stmt_list(a.statements@, b.statements@, ca, cb);
}

proof fn lemma_skel_genbody_list(
    a: Seq<crate::ast::GenerateBody>,
    b: Seq<crate::ast::GenerateBody>,
    ca: ResolveCtx,
    cb: ResolveCtx,
)
    requires
        same_skel_genbody_list(a, b),
        skel_ctx(ca, cb),
    ensures
        resolved_genbody_list_occs(b, cb) == resolved_genbody_list_occs(a, ca),
        genbody_list_diags(b, cb) == genbody_list_diags(a, ca),
    decreases a, 4int,
{
    if a.len() > 0 {
        lemma_skel_genbody(a[0], b[0], ca, cb);
        lemma_skel_genbody_list(a.drop_first(), b.drop_first(), ca, cb);
    }
}

proof fn lemma_skel_registered(a: Seq<Declaration>, b: Seq<Declaration>)
    requires
        same_skel_decl_list(a, b),
    ensures
        registered_decl_list_occs(b) == registered_decl_list_occs(a),
    decreases a.len(),
{
    if a.len() > 0 {
        lemma_skel_registered(a.drop_first(), b.drop_first());
    }
}

proof fn lemma_skel_resolved_unit(
    ua: AnyDesignUnit,
    ub: AnyDesignUnit,
    libsa: Seq<Library>,
    libsb: Seq<Library>,
    own_name: Seq<char>,
    la: Seq<AnyDesignUnit>,
    lb: Seq<AnyDesignUnit>,
)
    requires
        same_skel_unit(ua, ub),
        same_skel_lib_list(libsa, libsb),
        same_skel_unit_list(la, lb),
    ensures
        resolved_unit_occs(ub, libsb, own_name, lb) == resolved_unit_occs(
            ua,
            libsa,
            own_name,
            la,
        ),
        unit_diag_seq(ub, libsb, own_name, lb) == unit_diag_seq(ua, libsa, own_name, la),
{
    match (ua, ub) {
        (AnyDesignUnit::Entity(ea), AnyDesignUnit::Entity(eb)) => {
            lemma_skel_registered(ea.decl@, eb.decl@);
            let ca = ResolveCtx { libs: libsa, own_name, own_units: la, components: ea.decl@ };
            let cb = ResolveCtx { libs: libsb, own_name, own_units: lb, components: eb.decl@ };
            lemma_skel_stmt_list(ea.statements@, eb.statements@, ca, cb);
        },
        (AnyDesignUnit::Architecture(aa), AnyDesignUnit::Architecture(ab)) => {
            lemma_skel_resolve_secondary(aa.entity_name, ab.entity_name, own_name, la, lb);
            lemma_skel_registered(aa.decl@, ab.decl@);
            let ca = ResolveCtx { libs: libsa, own_name, own_units: la, components: aa.decl@ };
            let cb = ResolveCtx { libs: libsb, own_name, own_units: lb, components: ab.decl@ };
            lemma_skel_stmt_list(aa.statements@, ab.statements@, ca, cb);
        },
        (AnyDesignUnit::Configuration(ca), AnyDesignUnit::Configuration(cb)) => {
            lemma_skel_resolve_configuration(ca, cb, own_name, la, lb);
        },
        (AnyDesignUnit::Package(pa), AnyDesignUnit::Package(pb)) => {
            lemma_skel_registered(pa.decl@, pb.decl@);
        },
        (AnyDesignUnit::PackageBody(ba), AnyDesignUnit::PackageBody(bb)) => {
            lemma_skel_resolve_secondary(ba.ident, bb.ident, own_name, la, lb);
            lemma_skel_registered(ba.decl@, bb.decl@);
        },
        (AnyDesignUnit::PackageInstance(ia), AnyDesignUnit::PackageInstance(ib)) => {
            lemma_skel_resolve_primary(
                ia.package_name,
                ib.package_name,
                libsa,
                libsb,
                own_name,
                la,
                lb,
            );
        },
        _ => {},
    }
}

proof fn lemma_skel_resolved_unit_list(
    ua: Seq<AnyDesignUnit>,
    ub: Seq<AnyDesignUnit>,
    libsa: Seq<Library>,
    libsb: Seq<Library>,
    own_name: Seq<char>,
    la: Seq<AnyDesignUnit>,
    lb: Seq<AnyDesignUnit>,
)
    requires
        same_skel_unit_list(ua, ub),
        same_skel_lib_list(libsa, libsb),
        same_skel_unit_list(la, lb),
    ensures
        resolved_unit_list_occs(ub, libsb, own_name, lb) == resolved_unit_list_occs(
            ua,
            libsa,
            own_name,
            la,
        ),
        unit_list_diags(ub, libsb, own_name, lb) == unit_list_diags(ua, libsa, own_name, la),
    decreases ua.len(),
{
    if ua.len() > 0 {
        lemma_skel_resolved_unit(ua[0], ub[0], libsa, libsb, own_name, la, lb);
        lemma_skel_resolved_unit_list(
            ua.drop_first(),
            ub.drop_first(),
            libsa,
            libsb,
            own_name,
            la,
            lb,
        );
    }
}

proof fn lemma_skel_unit_list_take(a: Seq<AnyDesignUnit>, b: Seq<AnyDesignUnit>, k: int)
    requires
        same_skel_unit_list(a, b),
        0 <= k <= a.len(),
    ensures
        same_skel_unit_list(a.take(k), b.take(k)),
    decreases a.len(),
{
    if k > 0 && a.len() > 0 {
        lemma_skel_unit_list_take(a.drop_first(), b.drop_first(), k - 1);
        assert(a.take(k)[0] == a[0]);
        assert(b.take(k)[0] == b[0]);
        assert(a.take(k).drop_first() =~= a.drop_first().take(k - 1));
        assert(b.take(k).drop_first() =~= b.drop_first().take(k - 1));
    } else if k == 0 {
        assert(a.take(0) =~= Seq::<AnyDesignUnit>::empty());
        assert(b.take(0) =~= Seq::<AnyDesignUnit>::empty());
    }
}

proof fn lemma_skel_unit_list_index(a: Seq<AnyDesignUnit>, b: Seq<AnyDesignUnit>, i: int)
    requires
        same_skel_unit_list(a, b),
        0 <= i < a.len(),
    ensures
        same_skel_unit(a[i], b[i]),
    decreases i,
{
    if i > 0 {
        lemma_skel_unit_list_index(a.drop_first(), b.drop_first(), i - 1);
    }
}

proof fn lemma_skel_dup_diags_upto(a: Seq<AnyDesignUnit>, b: Seq<AnyDesignUnit>, i: int)
    requires
        same_skel_unit_list(a, b),
        i <= a.len(),
    ensures
        dup_diags_upto(b, i) == dup_diags_upto(a, i),
    decreases i,
{
    if i > 0 {
        lemma_skel_dup_diags_upto(a, b, i - 1);
        lemma_skel_unit_list_index(a, b, i - 1);
        lemma_skel_unit_list_take(a, b, i - 1);
        match primary_ident(a[i - 1]) {
            Some(d) => {
                lemma_skel_primary_lookup(a.take(i - 1), b.take(i - 1), d.name@);
            },
            None => {},
        }
    }
}

proof fn lemma_skel_lib_list_folds(a: Seq<Library>, b: Seq<Library>, libsa: Seq<Library>, libsb: Seq<Library>)
    requires
        same_skel_lib_list(a, b),
        same_skel_lib_list(libsa, libsb),
    ensures
        resolved_lib_list_occs(b, libsb) == resolved_lib_list_occs(a, libsa),
        lib_list_res_diags(b, libsb) == lib_list_res_diags(a, libsa),
        lib_list_dup_diags(b) == lib_list_dup_diags(a),
    decreases a.len(),
{
    if a.len() > 0 {
        lemma_skel_resolved_unit_list(
            a[0].units@,
            b[0].units@,
            libsa,
            libsb,
            a[0].name@,
            a[0].units@,
            b[0].units@,
        );
        lemma_skel_dup_diags_upto(a[0].units@, b[0].units@, a[0].units@.len() as int);
        lemma_skel_lib_list_folds(a.drop_first(), b.drop_first(), libsa, libsb);
    }
}

/// Idempotence law: the resolver rewrites only reference slots, so a
/// second run over an analyzed design recomputes exactly the same
/// resolved positions and the same diagnostics.  Together with
/// [`DesignRoot::analyze`]'s contract, which gives
/// [`same_skel_root`] of its input and output, this says that analyzing
/// twice yields identical results.
pub proof fn lemma_analyze_idempotent(a: DesignRoot, b: DesignRoot)
    requires
        same_skel_root(a, b),
    ensures
        root_resolved_occs(b) == root_resolved_occs(a),
        root_diag_model(b) == root_diag_model(a),
{
    lemma_skel_lib_list_folds(a.libraries@, b.libraries@, a.libraries@, b.libraries@);
}

proof fn lemma_contains_concat<A>(a: Seq<A>, b: Seq<A>, x: A)
    ensures
        (a + b).contains(x) <==> a.contains(x) || b.contains(x),
{
    if (a + b).contains(x) {
        let k = choose|k: int| 0 <= k < (a + b).len() && (a + b)[k] == x;
        if k < a.len() {
            assert(a[k] == x);
        } else {
            assert(b[k - a.len()] == x);
        }
    }
    if a.contains(x) {
        let k = choose|k: int| 0 <= k < a.len() && a[k] == x;
        assert((a + b)[k] == x);
    }
    if b.contains(x) {
        let k = choose|k: int| 0 <= k < b.len() && b[k] == x;
        assert((a + b)[a.len() + k] == x);
    }
}

/// The occurrences the resolver registers inside a statement tree: the
/// instantiation names, with what they resolved to.
pub open spec fn registered_conc_occs(c: crate::ast::ConcurrentStatement, ctx: ResolveCtx)
    -> Seq<Occurrence>
    decreases c, 0int,
{
    match c {
        crate::ast::ConcurrentStatement::Block(b) => registered_stmt_list_occs(b.statements@, ctx),
        crate::ast::ConcurrentStatement::Process(_) => Seq::empty(),
        crate::ast::ConcurrentStatement::ForGenerate(g) => registered_genbody_occs(g.body, ctx),
        crate::ast::ConcurrentStatement::IfGenerate(g) => registered_genbody_list_occs(
            g.conditionals@,
            ctx,
        ) + (match g.else_item {
            Some(e) => registered_genbody_occs(e, ctx),
            None => Seq::<Occurrence>::empty(),
        }),
        crate::ast::ConcurrentStatement::CaseGenerate(g) => registered_genbody_list_occs(
            g.alternatives@,
            ctx,
        ),
        crate::ast::ConcurrentStatement::Instance(i) => seq![
            Occurrence {
                pos: i.name.designator().pos,
                reference: resolve_instance(i, ctx).reference,
            },
        ],
        crate::ast::ConcurrentStatement::Other => Seq::empty(),
    }
}

pub open spec fn registered_stmt_occs(s: crate::ast::LabeledConcurrentStatement, ctx: ResolveCtx)
    -> Seq<Occurrence>
    decreases s, 1int,
{
    registered_conc_occs(s.statement, ctx)
}

pub open spec fn registered_stmt_list_occs(
    ss: Seq<crate::ast::LabeledConcurrentStatement>,
    ctx: ResolveCtx,
) -> Seq<Occurrence>
    decreases ss, 2int,
{
    if ss.len() == 0 {
        Seq::empty()
    } else {
        registered_stmt_occs(ss[0], ctx) + registered_stmt_list_occs(ss.drop_first(), ctx)
    }
}

pub open spec fn registered_genbody_occs(g: crate::ast::GenerateBody, ctx: ResolveCtx)
    -> Seq<Occurrence>
    decreases g, 3int,
{
    registered_stmt_list_occs(g.statements@, ctx)
}

pub open spec fn registered_genbody_list_occs(gs: Seq<crate::ast::GenerateBody>, ctx: ResolveCtx)
    -> Seq<Occurrence>
    decreases gs, 4int,
{
    if gs.len() == 0 {
        Seq::empty()
    } else {
        registered_genbody_occs(gs[0], ctx) + registered_genbody_list_occs(gs.drop_first(), ctx)
    }
}

/// The component declarations of a declarative part, each registered as
/// its own first reference.
pub open spec fn registered_component_occs(ds: Seq<Declaration>) -> Seq<Occurrence>
    decreases ds.len(),
{
    if ds.len() == 0 {
        Seq::empty()
    } else {
        (match ds[0] {
            Declaration::Component(c) => seq![self_occ(c.ident)],
            _ => Seq::<Occurrence>::empty(),
        }) + registered_component_occs(ds.drop_first())
    }
}

/// Every occurrence one unit's resolution registers, with what it
/// resolved to.
pub open spec fn registered_unit_occs(
    u: AnyDesignUnit,
    libs: Seq<Library>,
    own_name: Seq<char>,
    own_units: Seq<AnyDesignUnit>,
) -> Seq<Occurrence> {
    match u {
        AnyDesignUnit::Entity(e) => seq![self_occ(e.ident)] + registered_component_occs(e.decl@)
            + registered_stmt_list_occs(
            e.statements@,
            ResolveCtx { libs, own_name, own_units, components: e.decl@ },
        ),
        AnyDesignUnit::Architecture(a) => seq![
            self_occ(a.ident),
            Occurrence {
                pos: a.entity_name.pos,
                reference: resolve_secondary_reference(
                    a.entity_name,
                    own_name,
                    own_units,
                ).reference,
            },
        ] + registered_component_occs(a.decl@) + registered_stmt_list_occs(
            a.statements@,
            ResolveCtx { libs, own_name, own_units, components: a.decl@ },
        ),
        AnyDesignUnit::Configuration(c) => seq![
            self_occ(c.ident),
            Occurrence {
                pos: c.entity_name.designator().pos,
                reference: resolve_configuration_entity(c, own_name, own_units).reference,
            },
        ],
        AnyDesignUnit::Package(p) => seq![self_occ(p.ident)] + registered_component_occs(p.decl@),
        AnyDesignUnit::PackageBody(b) => seq![
            Occurrence {
                pos: b.ident.pos,
                reference: resolve_secondary_reference(b.ident, own_name, own_units).reference,
            },
        ] + registered_component_occs(b.decl@),
        AnyDesignUnit::PackageInstance(i) => seq![
            self_occ(i.ident),
            Occurrence {
                pos: i.package_name.designator().pos,
                reference: resolve_primary_reference(
                    i.package_name,
                    libs,
                    own_name,
                    own_units,
                ).reference,
            },
        ],
    }
}

/// A diagnostic accounts for an occurrence when it points at the
/// occurrence itself or, for a configuration, at the configuration's own
/// identifier or its whole entity name, where the ordering and
/// foreign-library errors point.
pub open spec fn accounts_for(d: DiagView, o: Occurrence, u: AnyDesignUnit) -> bool {
    d.pos == o.pos || (match u {
        AnyDesignUnit::Configuration(c) => d.pos == c.ident.pos || d.pos
            == c.entity_name.spec_pos(),
        _ => false,
    })
}

proof fn lemma_never_silent_conc(c: crate::ast::ConcurrentStatement, ctx: ResolveCtx, o: Occurrence)
    requires
        registered_conc_occs(c, ctx).contains(o),
        o.reference is None,
    ensures
        exists|j: int|
            0 <= j < conc_diags(c, ctx).len() && (#[trigger] conc_diags(c, ctx)[j]).pos == o.pos,
    decreases c, 0int,
{
    match c {
        crate::ast::ConcurrentStatement::Block(b) => {
            lemma_never_silent_stmt_list(b.statements@, ctx, o);
        },
        crate::ast::ConcurrentStatement::ForGenerate(g) => {
            lemma_never_silent_genbody(g.body, ctx, o);
        },
        crate::ast::ConcurrentStatement::IfGenerate(g) => {
            let els: Seq<Occurrence> = match g.else_item {
                Some(e) => registered_genbody_occs(e, ctx),
                None => Seq::<Occurrence>::empty(),
            };
            lemma_contains_concat(registered_genbody_list_occs(g.conditionals@, ctx), els, o);
            let dels: Seq<DiagView> = match g.else_item {
                Some(e) => genbody_diags(e, ctx),
                None => Seq::<DiagView>::empty(),
            };
            if registered_genbody_list_occs(g.conditionals@, ctx).contains(o) {
                lemma_never_silent_genbody_list(g.conditionals@, ctx, o);
                let j = choose|j: int|
                    0 <= j < genbody_list_diags(g.conditionals@, ctx).len() && (
                    #[trigger] genbody_list_diags(g.conditionals@, ctx)[j]).pos == o.pos;
                assert(conc_diags(c, ctx)[j].pos == o.pos);
            } else {
                match g.else_item {
                    Some(e) => {
                        lemma_never_silent_genbody(e, ctx, o);
                        let j = choose|j: int|
                            0 <= j < genbody_diags(e, ctx).len() && (#[trigger] genbody_diags(
                                e,
                                ctx,
                            )[j]).pos == o.pos;
                        assert(conc_diags(c, ctx)[genbody_list_diags(g.conditionals@, ctx).len()
                            + j].pos == o.pos);
                    },
                    None => {},
                }
            }
        },
        crate::ast::ConcurrentStatement::CaseGenerate(g) => {
            lemma_never_silent_genbody_list(g.alternatives@, ctx, o);
        },
        crate::ast::ConcurrentStatement::Instance(i) => {
            assert(o == registered_conc_occs(c, ctx)[0]);
            assert(resolve_instance(i, ctx).diag is Some);
            assert(conc_diags(c, ctx)[0].pos == o.pos);
        },
        _ => {},
    }
}

proof fn lemma_never_silent_stmt_list(
    ss: Seq<crate::ast::LabeledConcurrentStatement>,
    ctx: ResolveCtx,
    o: Occurrence,
)
    requires
        registered_stmt_list_occs(ss, ctx).contains(o),
        o.reference is None,
    ensures
        exists|j: int|
            0 <= j < stmt_list_diags(ss, ctx).len() && (#[trigger] stmt_list_diags(ss, ctx)[j]).pos
                == o.pos,
    decreases ss, 2int,
{
    lemma_contains_concat(
        registered_stmt_occs(ss[0], ctx),
        registered_stmt_list_occs(ss.drop_first(), ctx),
        o,
    );
    if registered_stmt_occs(ss[0], ctx).contains(o) {
        lemma_never_silent_conc(ss[0].statement, ctx, o);
        let j = choose|j: int|
            0 <= j < stmt_diags(ss[0], ctx).len() && (#[trigger] stmt_diags(ss[0], ctx)[j]).pos
                == o.pos;
        assert(stmt_list_diags(ss, ctx)[j].pos == o.pos);
    } else {
        lemma_never_silent_stmt_list(ss.drop_first(), ctx, o);
        let j = choose|j: int|
            0 <= j < stmt_list_diags(ss.drop_first(), ctx).len() && (#[trigger] stmt_list_diags(
                ss.drop_first(),
                ctx,
            )[j]).pos == o.pos;
        assert(stmt_list_diags(ss, ctx)[stmt_diags(ss[0], ctx).len() + j].pos == o.pos);
    }
}

proof fn lemma_never_silent_genbody(g: crate::ast::GenerateBody, ctx: ResolveCtx, o: Occurrence)
    requires
        registered_genbody_occs(g, ctx).contains(o),
        o.reference is None,
    ensures
        exists|j: int|
            0 <= j < genbody_diags(g, ctx).len() && (#[trigger] genbody_diags(g, ctx)[j]).pos
                == o.pos,
    decreases g, 3int,
{
    lemma_never_silent_stmt_list(g.statements@, ctx, o);
    let j = choose|j: int|
        0 <= j < stmt_list_diags(g.statements@, ctx).len() && (#[trigger] stmt_list_diags(
            g.statements@,
            ctx,
        )[j]).pos == o.pos;
    assert(genbody_diags(g, ctx)[j].pos == o.pos);
}

proof fn lemma_never_silent_genbody_list(
    gs: Seq<crate::ast::GenerateBody>,
    ctx: ResolveCtx,
    o: Occurrence,
)
    requires
        registered_genbody_list_occs(gs, ctx).contains(o),
        o.reference is None,
    ensures
        exists|j: int|
            0 <= j < genbody_list_diags(gs, ctx).len() && (#[trigger] genbody_list_diags(
                gs,
                ctx,
            )[j]).pos == o.pos,
    decreases gs, 4int,
{
    lemma_contains_concat(
        registered_genbody_occs(gs[0], ctx),
        registered_genbody_list_occs(gs.drop_first(), ctx),
        o,
    );
    if registered_genbody_occs(gs[0], ctx).contains(o) {
        lemma_never_silent_genbody(gs[0], ctx, o);
        let j = choose|j: int|
            0 <= j < genbody_diags(gs[0], ctx).len() && (#[trigger] genbody_diags(gs[0], ctx)[j]).pos
                == o.pos;
        assert(genbody_list_diags(gs, ctx)[j].pos == o.pos);
    } else {
        lemma_never_silent_genbody_list(gs.drop_first(), ctx, o);
        let j = choose|j: int|
            0 <= j < genbody_list_diags(gs.drop_first(), ctx).len() && (
            #[trigger] genbody_list_diags(gs.drop_first(), ctx)[j]).pos == o.pos;
        assert(genbody_list_diags(gs, ctx)[genbody_diags(gs[0], ctx).len() + j].pos == o.pos);
    }
}

proof fn lemma_component_occs_resolved(ds: Seq<Declaration>, o: Occurrence)
    requires
        registered_component_occs(ds).contains(o),
    ensures
        o.reference is Some,
    decreases ds.len(),
{
    if ds.len() > 0 {
        lemma_contains_concat(
            (match ds[0] {
                Declaration::Component(c) => seq![self_occ(c.ident)],
                _ => Seq::<Occurrence>::empty(),
            }),
            registered_component_occs(ds.drop_first()),
            o,
        );
        if !(match ds[0] {
            Declaration::Component(c) => seq![self_occ(c.ident)],
            _ => Seq::<Occurrence>::empty(),
        }).contains(o) {
            lemma_component_occs_resolved(ds.drop_first(), o);
        }
    }
}

/// Resolution is never silent: every occurrence it registers either got
/// a resolved position or is accounted for by a diagnostic of its own
/// unit.
pub proof fn lemma_registered_never_silent(
    u: AnyDesignUnit,
    libs: Seq<Library>,
    own_name: Seq<char>,
    own_units: Seq<AnyDesignUnit>,
    o: Occurrence,
)
    requires
        registered_unit_occs(u, libs, own_name, own_units).contains(o),
        o.reference is None,
    ensures
        exists|j: int|
            0 <= j < unit_diag_seq(u, libs, own_name, own_units).len() && accounts_for(
                #[trigger] unit_diag_seq(u, libs, own_name, own_units)[j],
                o,
                u,
            ),
{
    let diags = unit_diag_seq(u, libs, own_name, own_units);
    match u {
        AnyDesignUnit::Entity(e) => {
            let ctx = ResolveCtx { libs, own_name, own_units, components: e.decl@ };
            lemma_contains_concat(
                seq![self_occ(e.ident)] + registered_component_occs(e.decl@),
                registered_stmt_list_occs(e.statements@, ctx),
                o,
            );
            lemma_contains_concat(seq![self_occ(e.ident)], registered_component_occs(e.decl@), o);
            if registered_component_occs(e.decl@).contains(o) {
                lemma_component_occs_resolved(e.decl@, o);
            } else if registered_stmt_list_occs(e.statements@, ctx).contains(o) {
                lemma_never_silent_stmt_list(e.statements@, ctx, o);
                let j = choose|j: int|
                    0 <= j < stmt_list_diags(e.statements@, ctx).len() && (
                    #[trigger] stmt_list_diags(e.statements@, ctx)[j]).pos == o.pos;
                assert(accounts_for(diags[j], o, u));
            }
        },
        AnyDesignUnit::Architecture(a) => {
            let ctx = ResolveCtx { libs, own_name, own_units, components: a.decl@ };
            let head = seq![
                self_occ(a.ident),
                Occurrence {
                    pos: a.entity_name.pos,
                    reference: resolve_secondary_reference(
                        a.entity_name,
                        own_name,
                        own_units,
                    ).reference,
                },
            ];
            lemma_contains_concat(
                head + registered_component_occs(a.decl@),
                registered_stmt_list_occs(a.statements@, ctx),
                o,
            );
            lemma_contains_concat(head, registered_component_occs(a.decl@), o);
            let sec = resolve_secondary_reference(a.entity_name, own_name, own_units);
            if head.contains(o) {
                assert(o == head[1]);
                assert(sec.diag is Some);
                assert(accounts_for(diags[0], o, u));
            } else if registered_component_occs(a.decl@).contains(o) {
                lemma_component_occs_resolved(a.decl@, o);
            } else {
                lemma_never_silent_stmt_list(a.statements@, ctx, o);
                let j = choose|j: int|
                    0 <= j < stmt_list_diags(a.statements@, ctx).len() && (
                    #[trigger] stmt_list_diags(a.statements@, ctx)[j]).pos == o.pos;
                assert(accounts_for(diags[opt_diag_seq(sec.diag).len() + j], o, u));
            }
        },
        AnyDesignUnit::Configuration(c) => {
            let res = resolve_configuration_entity(c, own_name, own_units);
            assert(o == registered_unit_occs(u, libs, own_name, own_units)[1]);
            assert(res.diag is Some);
            assert(accounts_for(diags[0], o, u));
        },
        AnyDesignUnit::Package(p) => {
            lemma_contains_concat(seq![self_occ(p.ident)], registered_component_occs(p.decl@), o);
            if registered_component_occs(p.decl@).contains(o) {
                lemma_component_occs_resolved(p.decl@, o);
            }
        },
        AnyDesignUnit::PackageBody(b) => {
            let sec = resolve_secondary_reference(b.ident, own_name, own_units);
            let head = seq![Occurrence { pos: b.ident.pos, reference: sec.reference }];
            lemma_contains_concat(head, registered_component_occs(b.decl@), o);
            if head.contains(o) {
                assert(sec.diag is Some);
                assert(accounts_for(diags[0], o, u));
            } else {
                lemma_component_occs_resolved(b.decl@, o);
            }
        },
        AnyDesignUnit::PackageInstance(i) => {
            let res = resolve_primary_reference(i.package_name, libs, own_name, own_units);
            assert(o == registered_unit_occs(u, libs, own_name, own_units)[1]);
            assert(res.diag is Some);
            assert(accounts_for(diags[0], o, u));
        },
    }
}

/// The identifier a unit declares, where it declares one of its own: a
/// package body only extends its package.
pub open spec fn declared_ident(u: AnyDesignUnit) -> Option<Designator> {
    match u {
        AnyDesignUnit::Entity(e) => Some(e.ident),
        AnyDesignUnit::Architecture(a) => Some(a.ident),
        AnyDesignUnit::Configuration(c) => Some(c.ident),
        AnyDesignUnit::Package(p) => Some(p.ident),
        AnyDesignUnit::PackageBody(_) => None,
        AnyDesignUnit::PackageInstance(i) => Some(i.ident),
    }
}

proof fn lemma_unit_list_self_registered(
    us: Seq<AnyDesignUnit>,
    libs: Seq<Library>,
    own_name: Seq<char>,
    own_units: Seq<AnyDesignUnit>,
    ui: int,
)
    requires
        0 <= ui < us.len(),
        declared_ident(us[ui]) is Some,
    ensures
        resolved_unit_list_occs(us, libs, own_name, own_units).contains(
            self_occ(declared_ident(us[ui]).unwrap()),
        ),
    decreases ui,
{
    let target = self_occ(declared_ident(us[ui]).unwrap());
    if ui == 0 {
        assert(resolved_unit_occs(us[0], libs, own_name, own_units)[0] == target);
        assert(resolved_unit_occs(us[0], libs, own_name, own_units).contains(target));
        lemma_contains_concat(
            resolved_unit_occs(us[0], libs, own_name, own_units),
            resolved_unit_list_occs(us.drop_first(), libs, own_name, own_units),
            target,
        );
    } else {
        assert(us.drop_first()[ui - 1] == us[ui]);
        lemma_unit_list_self_registered(us.drop_first(), libs, own_name, own_units, ui - 1);
        lemma_contains_concat(
            resolved_unit_occs(us[0], libs, own_name, own_units),
            resolved_unit_list_occs(us.drop_first(), libs, own_name, own_units),
            target,
        );
    }
}

proof fn lemma_lib_list_self_registered(ls: Seq<Library>, libs: Seq<Library>, li: int, ui: int)
    requires
        0 <= li < ls.len(),
        0 <= ui < ls[li].units@.len(),
        declared_ident(ls[li].units@[ui]) is Some,
    ensures
        resolved_lib_list_occs(ls, libs).contains(
            self_occ(declared_ident(ls[li].units@[ui]).unwrap()),
        ),
    decreases li,
{
    let target = self_occ(declared_ident(ls[li].units@[ui]).unwrap());
    if li == 0 {
        lemma_unit_list_self_registered(ls[0].units@, libs, ls[0].name@, ls[0].units@, ui);
        lemma_contains_concat(
            resolved_unit_list_occs(ls[0].units@, libs, ls[0].name@, ls[0].units@),
            resolved_lib_list_occs(ls.drop_first(), libs),
            target,
        );
    } else {
        assert(ls.drop_first()[li - 1] == ls[li]);
        lemma_lib_list_self_registered(ls.drop_first(), libs, li - 1, ui);
        lemma_contains_concat(
            resolved_unit_list_occs(ls[0].units@, libs, ls[0].name@, ls[0].units@),
            resolved_lib_list_occs(ls.drop_first(), libs),
            target,
        );
    }
}

/// Self-reference foundation: after a resolver pass, every unit that
/// declares an identifier carries an occurrence at that identifier's
/// position resolved to itself.  With the query laws this gives the
/// self-reference rule: a reference search at a declaration's own
/// position answers with that declaration.
pub proof fn lemma_analysis_self_registers(r: DesignRoot, li: int, ui: int)
    requires
        0 <= li < r.libraries@.len(),
        0 <= ui < r.libraries@[li].units@.len(),
        declared_ident(r.libraries@[li].units@[ui]) is Some,
    ensures
        root_resolved_occs(r).contains(
            self_occ(declared_ident(r.libraries@[li].units@[ui]).unwrap()),
        ),
{
    lemma_lib_list_self_registered(r.libraries@, r.libraries@, li, ui);
}

} // verus!
