//! Read-only source-position queries over an analyzed design.
//!
//! Both queries are stated over the occurrence model of [`crate::ast`]:
//! the deterministic pre-order sequence of every name occurrence of the
//! design.  [`DesignRoot::search_reference`] returns the resolved position
//! of the first occurrence whose span covers the cursor, and
//! [`DesignRoot::find_all_references`] returns the positions of exactly
//! the occurrences that resolved to a given declaration.
//!
//! The proof functions at the end state the query laws: a registered
//! declaration is found from its own position, a span matches a cursor on
//! both of its boundary gaps and nothing beyond them, and the reference
//! search and the find-all-references search agree.

use vstd::prelude::*;

use crate::ast::AnyDesignUnit;
use crate::ast::Declaration;
use crate::ast::DesignRoot;
use crate::ast::Designator;
use crate::ast::GenerateBody;
use crate::ast::InterfaceDeclaration;
use crate::ast::LabeledConcurrentStatement;
use crate::ast::Library;
use crate::ast::Occurrence;
use crate::ast::ProtectedTypeDeclarativeItem;
use crate::ast::SelectedName;
use crate::ast::Source;
use crate::ast::SrcPos;
use crate::ast::SubprogramDeclaration;
use crate::ast::SubtypeIndication;
use crate::ast::TypeDefinition;
use crate::ast::conc_occs;
use crate::ast::decl_list_occs;
use crate::ast::decl_occs;
use crate::ast::genbody_list_occs;
use crate::ast::genbody_occs;
use crate::ast::iface_list_occs;
use crate::ast::iface_occs;
use crate::ast::lib_list_occs;
use crate::ast::occ_of;
use crate::ast::opt_iface_list_occs;
use crate::ast::protitem_list_occs;
use crate::ast::record_occs;
use crate::ast::root_occs;
use crate::ast::selname_occs;
use crate::ast::stmt_list_occs;
use crate::ast::stmt_occs;
use crate::ast::subprog_occs;
use crate::ast::subtype_occs;
use crate::ast::typedef_occs;
use crate::ast::unit_list_occs;
use crate::ast::unit_occs;

verus! {

/// The first occurrence, in walk order, whose span in the queried source
/// covers the cursor.
pub open spec fn first_hit(occs: Seq<Occurrence>, source: Source, cursor: usize) -> Option<
    Occurrence,
>
    decreases occs.len(),
{
    if occs.len() == 0 {
        None
    } else if occs[0].pos.source == source && occs[0].pos.spec_contains(cursor) {
        Some(occs[0])
    } else {
        first_hit(occs.drop_first(), source, cursor)
    }
}

/// The positions, in walk order, of the occurrences that resolved to the
/// given declaration position.
pub open spec fn refs_to(occs: Seq<Occurrence>, declaration: SrcPos) -> Seq<SrcPos>
    decreases occs.len(),
{
    if occs.len() == 0 {
        Seq::empty()
    } else {
        (if occs[0].reference == Some(declaration) {
            seq![occs[0].pos]
        } else {
            Seq::<SrcPos>::empty()
        }) + refs_to(occs.drop_first(), declaration)
    }
}

fn collect_designator(d: &Designator, out: &mut Vec<Occurrence>)
    ensures
        final(out)@ == old(out)@ + seq![occ_of(*d)],
{
    out.push(Occurrence { pos: d.pos, reference: d.reference });
    proof {
        assert(out@ =~= old(out)@ + seq![occ_of(*d)]);
    }
}

fn collect_selname(n: &SelectedName, out: &mut Vec<Occurrence>)
    ensures
        final(out)@ == old(out)@ + selname_occs(*n),
{
    match n {
        SelectedName::Qualified(q) => collect_designator(&q.designator, out),
        SelectedName::Simple(d) => collect_designator(d, out),
    }
}

fn collect_subtype(s: &SubtypeIndication, out: &mut Vec<Occurrence>)
    ensures
        final(out)@ == old(out)@ + subtype_occs(*s),
{
    collect_selname(&s.type_mark, out)
}

fn collect_subprog(s: &SubprogramDeclaration, out: &mut Vec<Occurrence>)
    ensures
        final(out)@ == old(out)@ + subprog_occs(*s),
    decreases *s, 3int,
{
    match s {
        SubprogramDeclaration::Procedure(p) => {
            collect_iface_list(&p.parameter_list, 0, out);
            proof {
                assert(p.parameter_list@.skip(0) =~= p.parameter_list@);
            }
        },
        SubprogramDeclaration::Function(f) => {
            collect_iface_list(&f.parameter_list, 0, out);
            collect_selname(&f.return_type, out);
            proof {
                assert(f.parameter_list@.skip(0) =~= f.parameter_list@);
                assert(out@ =~= old(out)@ + subprog_occs(*s));
            }
        },
    }
}

fn collect_iface(d: &InterfaceDeclaration, out: &mut Vec<Occurrence>)
    ensures
        final(out)@ == old(out)@ + iface_occs(*d),
    decreases *d, 1int,
{
    match d {
        InterfaceDeclaration::Object(o) => collect_subtype(&o.subtype_indication, out),
        InterfaceDeclaration::Subprogram(s) => collect_subprog(s, out),
        InterfaceDeclaration::Other => {
            proof {
                assert(out@ =~= old(out)@ + iface_occs(*d));
            }
        },
    }
}

fn collect_iface_list(ds: &Vec<InterfaceDeclaration>, i: usize, out: &mut Vec<Occurrence>)
    requires
        i <= ds@.len(),
    ensures
        final(out)@ == old(out)@ + iface_list_occs(ds@.skip(i as int)),
    decreases ds@, 2int, ds@.len() - i,
{
    if i == ds.len() {
        proof {
            assert(ds@.skip(i as int) =~= Seq::<InterfaceDeclaration>::empty());
            assert(out@ =~= old(out)@ + iface_list_occs(ds@.skip(i as int)));
        }
    } else {
        collect_iface(&ds[i], out);
        collect_iface_list(ds, i + 1, out);
        proof {
            assert(ds@.skip(i as int)[0] == ds@[i as int]);
            assert(ds@.skip(i as int).drop_first() =~= ds@.skip(i as int + 1));
            assert(out@ =~= old(out)@ + iface_list_occs(ds@.skip(i as int)));
        }
    }
}

fn collect_record(es: &Vec<crate::ast::ElementDeclaration>, i: usize, out: &mut Vec<Occurrence>)
    requires
        i <= es@.len(),
    ensures
        final(out)@ == old(out)@ + record_occs(es@.skip(i as int)),
    decreases es@.len() - i,
{
    if i == es.len() {
        proof {
            assert(es@.skip(i as int) =~= Seq::<crate::ast::ElementDeclaration>::empty());
            assert(out@ =~= old(out)@ + record_occs(es@.skip(i as int)));
        }
    } else {
        collect_subtype(&es[i].subtype, out);
        collect_record(es, i + 1, out);
        proof {
            assert(es@.skip(i as int)[0] == es@[i as int]);
            assert(es@.skip(i as int).drop_first() =~= es@.skip(i as int + 1));
            assert(out@ =~= old(out)@ + record_occs(es@.skip(i as int)));
        }
    }
}

fn collect_protitems(
    items: &Vec<ProtectedTypeDeclarativeItem>,
    i: usize,
    out: &mut Vec<Occurrence>,
)
    requires
        i <= items@.len(),
    ensures
        final(out)@ == old(out)@ + protitem_list_occs(items@.skip(i as int)),
    decreases items@.len() - i,
{
    if i == items.len() {
        proof {
            assert(items@.skip(i as int) =~= Seq::<ProtectedTypeDeclarativeItem>::empty());
            assert(out@ =~= old(out)@ + protitem_list_occs(items@.skip(i as int)));
        }
    } else {
        match &items[i] {
            ProtectedTypeDeclarativeItem::Subprogram(s) => collect_subprog(s, out),
        }
        collect_protitems(items, i + 1, out);
        proof {
            assert(items@.skip(i as int)[0] == items@[i as int]);
            assert(items@.skip(i as int).drop_first() =~= items@.skip(i as int + 1));
            assert(out@ =~= old(out)@ + protitem_list_occs(items@.skip(i as int)));
        }
    }
}

fn collect_typedef(t: &TypeDefinition, out: &mut Vec<Occurrence>)
    ensures
        final(out)@ == old(out)@ + typedef_occs(*t),
    decreases *t, 1int,
{
    match t {
        TypeDefinition::Protected(p) => {
            collect_protitems(&p.items, 0, out);
            proof {
                assert(p.items@.skip(0) =~= p.items@);
            }
        },
        TypeDefinition::ProtectedBody(b) => {
            collect_decl_list(&b.decl, 0, out);
            proof {
                assert(b.decl@.skip(0) =~= b.decl@);
            }
        },
        TypeDefinition::Record(es) => {
            collect_record(es, 0, out);
            proof {
                assert(es@.skip(0) =~= es@);
            }
        },
        TypeDefinition::Access(s) => collect_subtype(s, out),
        TypeDefinition::Array(s) => collect_subtype(s, out),
        TypeDefinition::Subtype(s) => collect_subtype(s, out),
        TypeDefinition::Other => {
            proof {
                assert(out@ =~= old(out)@ + typedef_occs(*t));
            }
        },
    }
}

fn collect_decl(d: &Declaration, out: &mut Vec<Occurrence>)
    ensures
        final(out)@ == old(out)@ + decl_occs(*d),
    decreases *d, 2int,
{
    match d {
        Declaration::Object(o) => collect_subtype(&o.subtype_indication, out),
        Declaration::Component(c) => collect_designator(&c.ident, out),
        Declaration::Type(t) => collect_typedef(&t.def, out),
        Declaration::SubprogramBody(b) => {
            collect_subprog(&b.specification, out);
            collect_decl_list(&b.declarations, 0, out);
            proof {
                assert(b.declarations@.skip(0) =~= b.declarations@);
                assert(out@ =~= old(out)@ + decl_occs(*d));
            }
        },
        Declaration::SubprogramDeclaration(s) => collect_subprog(s, out),
        Declaration::Other => {
            proof {
                assert(out@ =~= old(out)@ + decl_occs(*d));
            }
        },
    }
}

fn collect_decl_list(ds: &Vec<Declaration>, i: usize, out: &mut Vec<Occurrence>)
    requires
        i <= ds@.len(),
    ensures
        final(out)@ == old(out)@ + decl_list_occs(ds@.skip(i as int)),
    decreases ds@, 3int, ds@.len() - i,
{
    if i == ds.len() {
        proof {
            assert(ds@.skip(i as int) =~= Seq::<Declaration>::empty());
            assert(out@ =~= old(out)@ + decl_list_occs(ds@.skip(i as int)));
        }
    } else {
        collect_decl(&ds[i], out);
        collect_decl_list(ds, i + 1, out);
        proof {
            assert(ds@.skip(i as int)[0] == ds@[i as int]);
            assert(ds@.skip(i as int).drop_first() =~= ds@.skip(i as int + 1));
            assert(out@ =~= old(out)@ + decl_list_occs(ds@.skip(i as int)));
        }
    }
}

fn collect_genbody(g: &GenerateBody, out: &mut Vec<Occurrence>)
    ensures
        final(out)@ == old(out)@ + genbody_occs(*g),
    decreases *g, 4int,
{
    match &g.decl {
        Some(ds) => {
            collect_decl_list(ds, 0, out);
            proof {
                assert(ds@.skip(0) =~= ds@);
            }
        },
        None => {},
    }
    collect_stmt_list(&g.statements, 0, out);
    proof {
        assert(g.statements@.skip(0) =~= g.statements@);
        assert(out@ =~= old(out)@ + genbody_occs(*g));
    }
}

fn collect_genbody_list(gs: &Vec<GenerateBody>, i: usize, out: &mut Vec<Occurrence>)
    requires
        i <= gs@.len(),
    ensures
        final(out)@ == old(out)@ + genbody_list_occs(gs@.skip(i as int)),
    decreases gs@, 5int, gs@.len() - i,
{
    if i == gs.len() {
        proof {
            assert(gs@.skip(i as int) =~= Seq::<GenerateBody>::empty());
            assert(out@ =~= old(out)@ + genbody_list_occs(gs@.skip(i as int)));
        }
    } else {
        collect_genbody(&gs[i], out);
        collect_genbody_list(gs, i + 1, out);
        proof {
            assert(gs@.skip(i as int)[0] == gs@[i as int]);
            assert(gs@.skip(i as int).drop_first() =~= gs@.skip(i as int + 1));
            assert(out@ =~= old(out)@ + genbody_list_occs(gs@.skip(i as int)));
        }
    }
}

fn collect_stmt(s: &LabeledConcurrentStatement, out: &mut Vec<Occurrence>)
    ensures
        final(out)@ == old(out)@ + stmt_occs(*s),
    decreases *s, 7int,
{
    match &s.statement {
        crate::ast::ConcurrentStatement::Block(b) => {
            collect_decl_list(&b.decl, 0, out);
            collect_stmt_list(&b.statements, 0, out);
            proof {
                assert(b.decl@.skip(0) =~= b.decl@);
                assert(b.statements@.skip(0) =~= b.statements@);
                assert(out@ =~= old(out)@ + stmt_occs(*s));
            }
        },
        crate::ast::ConcurrentStatement::Process(p) => {
            collect_decl_list(&p.decl, 0, out);
            proof {
                assert(p.decl@.skip(0) =~= p.decl@);
            }
        },
        crate::ast::ConcurrentStatement::ForGenerate(g) => collect_genbody(&g.body, out),
        crate::ast::ConcurrentStatement::IfGenerate(g) => {
            collect_genbody_list(&g.conditionals, 0, out);
            match &g.else_item {
                Some(e) => collect_genbody(e, out),
                None => {},
            }
            proof {
                assert(g.conditionals@.skip(0) =~= g.conditionals@);
                assert(out@ =~= old(out)@ + stmt_occs(*s));
            }
        },
        crate::ast::ConcurrentStatement::CaseGenerate(g) => {
            collect_genbody_list(&g.alternatives, 0, out);
            proof {
                assert(g.alternatives@.skip(0) =~= g.alternatives@);
            }
        },
        crate::ast::ConcurrentStatement::Instance(inst) => collect_selname(&inst.name, out),
        crate::ast::ConcurrentStatement::Other => {
            proof {
                assert(out@ =~= old(out)@ + stmt_occs(*s));
            }
        },
    }
}

fn collect_stmt_list(ss: &Vec<LabeledConcurrentStatement>, i: usize, out: &mut Vec<Occurrence>)
    requires
        i <= ss@.len(),
    ensures
        final(out)@ == old(out)@ + stmt_list_occs(ss@.skip(i as int)),
    decreases ss@, 8int, ss@.len() - i,
{
    if i == ss.len() {
        proof {
            assert(ss@.skip(i as int) =~= Seq::<LabeledConcurrentStatement>::empty());
            assert(out@ =~= old(out)@ + stmt_list_occs(ss@.skip(i as int)));
        }
    } else {
        collect_stmt(&ss[i], out);
        collect_stmt_list(ss, i + 1, out);
        proof {
            assert(ss@.skip(i as int)[0] == ss@[i as int]);
            assert(ss@.skip(i as int).drop_first() =~= ss@.skip(i as int + 1));
            assert(out@ =~= old(out)@ + stmt_list_occs(ss@.skip(i as int)));
        }
    }
}

fn collect_opt_iface(o: &Option<Vec<InterfaceDeclaration>>, out: &mut Vec<Occurrence>)
    ensures
        final(out)@ == old(out)@ + opt_iface_list_occs(*o),
{
    match o {
        Some(v) => {
            collect_iface_list(v, 0, out);
            proof {
                assert(v@.skip(0) =~= v@);
            }
        },
        None => {},
    }
}

fn collect_unit(u: &AnyDesignUnit, out: &mut Vec<Occurrence>)
    ensures
        final(out)@ == old(out)@ + unit_occs(*u),
{
    match u {
        AnyDesignUnit::Entity(e) => {
            collect_designator(&e.ident, out);
            collect_opt_iface(&e.generic_clause, out);
            collect_opt_iface(&e.port_clause, out);
            collect_decl_list(&e.decl, 0, out);
            collect_stmt_list(&e.statements, 0, out);
            proof {
                assert(e.decl@.skip(0) =~= e.decl@);
                assert(e.statements@.skip(0) =~= e.statements@);
                assert(out@ =~= old(out)@ + unit_occs(*u));
            }
        },
        AnyDesignUnit::Architecture(a) => {
            collect_designator(&a.ident, out);
            collect_designator(&a.entity_name, out);
            collect_decl_list(&a.decl, 0, out);
            collect_stmt_list(&a.statements, 0, out);
            proof {
                assert(a.decl@.skip(0) =~= a.decl@);
                assert(a.statements@.skip(0) =~= a.statements@);
                assert(out@ =~= old(out)@ + unit_occs(*u));
            }
        },
        AnyDesignUnit::Configuration(c) => {
            collect_designator(&c.ident, out);
            collect_selname(&c.entity_name, out);
            proof {
                assert(out@ =~= old(out)@ + unit_occs(*u));
            }
        },
        AnyDesignUnit::Package(p) => {
            collect_designator(&p.ident, out);
            collect_opt_iface(&p.generic_clause, out);
            collect_decl_list(&p.decl, 0, out);
            proof {
                assert(p.decl@.skip(0) =~= p.decl@);
                assert(out@ =~= old(out)@ + unit_occs(*u));
            }
        },
        AnyDesignUnit::PackageBody(b) => {
            collect_designator(&b.ident, out);
            collect_decl_list(&b.decl, 0, out);
            proof {
                assert(b.decl@.skip(0) =~= b.decl@);
                assert(out@ =~= old(out)@ + unit_occs(*u));
            }
        },
        AnyDesignUnit::PackageInstance(i) => {
            collect_designator(&i.ident, out);
            collect_selname(&i.package_name, out);
            proof {
                assert(out@ =~= old(out)@ + unit_occs(*u));
            }
        },
    }
}

fn collect_unit_list(us: &Vec<AnyDesignUnit>, i: usize, out: &mut Vec<Occurrence>)
    requires
        i <= us@.len(),
    ensures
        final(out)@ == old(out)@ + unit_list_occs(us@.skip(i as int)),
    decreases us@.len() - i,
{
    if i == us.len() {
        proof {
            assert(us@.skip(i as int) =~= Seq::<AnyDesignUnit>::empty());
            assert(out@ =~= old(out)@ + unit_list_occs(us@.skip(i as int)));
        }
    } else {
        collect_unit(&us[i], out);
        collect_unit_list(us, i + 1, out);
        proof {
            assert(us@.skip(i as int)[0] == us@[i as int]);
            assert(us@.skip(i as int).drop_first() =~= us@.skip(i as int + 1));
            assert(out@ =~= old(out)@ + unit_list_occs(us@.skip(i as int)));
        }
    }
}

fn collect_lib_list(ls: &Vec<Library>, i: usize, out: &mut Vec<Occurrence>)
    requires
        i <= ls@.len(),
    ensures
        final(out)@ == old(out)@ + lib_list_occs(ls@.skip(i as int)),
    decreases ls@.len() - i,
{
    if i == ls.len() {
        proof {
            assert(ls@.skip(i as int) =~= Seq::<Library>::empty());
            assert(out@ =~= old(out)@ + lib_list_occs(ls@.skip(i as int)));
        }
    } else {
        collect_unit_list(&ls[i].units, 0, out);
        collect_lib_list(ls, i + 1, out);
        proof {
            assert(ls@[i as int].units@.skip(0) =~= ls@[i as int].units@);
            assert(ls@.skip(i as int)[0] == ls@[i as int]);
            assert(ls@.skip(i as int).drop_first() =~= ls@.skip(i as int + 1));
            assert(out@ =~= old(out)@ + lib_list_occs(ls@.skip(i as int)));
        }
    }
}

fn scan_first_hit(occs: &Vec<Occurrence>, i: usize, source: Source, cursor: usize) -> (r: Option<
    Occurrence,
>)
    requires
        i <= occs@.len(),
    ensures
        r == first_hit(occs@.skip(i as int), source, cursor),
    decreases occs@.len() - i,
{
    if i == occs.len() {
        proof {
            assert(occs@.skip(i as int) =~= Seq::<Occurrence>::empty());
        }
        None
    } else {
        proof {
            assert(occs@.skip(i as int)[0] == occs@[i as int]);
            assert(occs@.skip(i as int).drop_first() =~= occs@.skip(i as int + 1));
        }
        let o = occs[i];
        if o.pos.source == source && o.pos.contains(cursor) {
            Some(o)
        } else {
            scan_first_hit(occs, i + 1, source, cursor)
        }
    }
}

fn scan_refs(occs: &Vec<Occurrence>, i: usize, declaration: SrcPos) -> (r: Vec<SrcPos>)
    requires
        i <= occs@.len(),
    ensures
        r@ == refs_to(occs@.skip(i as int), declaration),
    decreases occs@.len() - i,
{
    if i == occs.len() {
        let r: Vec<SrcPos> = Vec::new();
        proof {
            assert(occs@.skip(i as int) =~= Seq::<Occurrence>::empty());
        }
        r
    } else {
        proof {
            assert(occs@.skip(i as int)[0] == occs@[i as int]);
            assert(occs@.skip(i as int).drop_first() =~= occs@.skip(i as int + 1));
        }
        let rest = scan_refs(occs, i + 1, declaration);
        let o = occs[i];
        let hit: bool = match o.reference {
            Some(p) => p == declaration,
            None => false,
        };
        if hit {
            let mut out: Vec<SrcPos> = Vec::new();
            out.push(o.pos);
            let mut tail = rest;
            let ghost rest_view = tail@;
            out.append(&mut tail);
            proof {
                assert(out@ =~= seq![o.pos] + rest_view);
                assert(out@ =~= refs_to(occs@.skip(i as int), declaration));
            }
            out
        } else {
            rest
        }
    }
}

impl DesignRoot {
    /// Every name occurrence of the design, in walk order.
    pub fn occurrences(&self) -> (r: Vec<Occurrence>)
        ensures
            r@ == root_occs(*self),
    {
        let mut out: Vec<Occurrence> = Vec::new();
        collect_lib_list(&self.libraries, 0, &mut out);
        proof {
            assert(self.libraries@.skip(0) =~= self.libraries@);
            assert(out@ =~= root_occs(*self));
        }
        out
    }

    /// What the name under the cursor refers to: the resolved position of
    /// the first occurrence whose span covers the cursor in the queried
    /// source, or nothing when no occurrence matches or the matching one
    /// is unresolved.
    pub fn search_reference(&self, source: &Source, cursor: usize) -> (r: Option<SrcPos>)
        ensures
            r == (match first_hit(root_occs(*self), *source, cursor) {
                Some(occurrence) => occurrence.reference,
                None => None,
            }),
    {
        let occs = self.occurrences();
        proof {
            assert(occs@.skip(0) =~= occs@);
        }
        match scan_first_hit(&occs, 0, *source, cursor) {
            Some(occurrence) => occurrence.reference,
            None => None,
        }
    }

    /// The positions of exactly the occurrences that resolved to the
    /// given declaration position, in walk order.  A declaration is
    /// registered as its own first reference, so its own position is
    /// among them.
    pub fn find_all_references(&self, declaration: &SrcPos) -> (r: Vec<SrcPos>)
        ensures
            r@ == refs_to(root_occs(*self), *declaration),
    {
        let occs = self.occurrences();
        proof {
            assert(occs@.skip(0) =~= occs@);
        }
        scan_refs(&occs, 0, *declaration)
    }
}

/// No two occurrences of one source overlap, not even at their boundary
/// gaps; parsed input satisfies this because distinct names are separated
/// by at least one character.
pub open spec fn occ_disjoint(occs: Seq<Occurrence>) -> bool {
    forall|i: int, j: int|
        0 <= i < occs.len() && 0 <= j < occs.len() && i != j && (#[trigger] occs[i]).pos.source
            == (#[trigger] occs[j]).pos.source ==> (occs[i].pos.end < occs[j].pos.start
            || occs[j].pos.end < occs[i].pos.start)
}

proof fn lemma_first_hit_finds(occs: Seq<Occurrence>, source: Source, cursor: usize, i: int)
    requires
        0 <= i < occs.len(),
        occs[i].pos.source == source,
        occs[i].pos.spec_contains(cursor),
        forall|j: int|
            0 <= j < i ==> !((#[trigger] occs[j]).pos.source == source
                && occs[j].pos.spec_contains(cursor)),
    ensures
        first_hit(occs, source, cursor) == Some(occs[i]),
    decreases i,
{
    if i > 0 {
        assert(occs.drop_first()[i - 1] == occs[i]);
        assert(forall|j: int|
            0 <= j < i - 1 ==> #[trigger] occs.drop_first()[j] == occs[j + 1]);
        lemma_first_hit_finds(occs.drop_first(), source, cursor, i - 1);
    }
}

/// Boundary law, miss direction: where no occurrence of the source covers
/// the cursor, the search returns nothing.
pub proof fn lemma_first_hit_miss(occs: Seq<Occurrence>, source: Source, cursor: usize)
    requires
        forall|j: int|
            0 <= j < occs.len() ==> !((#[trigger] occs[j]).pos.source == source
                && occs[j].pos.spec_contains(cursor)),
    ensures
        first_hit(occs, source, cursor) is None,
    decreases occs.len(),
{
    if occs.len() > 0 {
        assert(occs.drop_first().len() == occs.len() - 1);
        assert(forall|j: int|
            0 <= j < occs.drop_first().len() ==> occs.drop_first()[j] == occs[j + 1]);
        lemma_first_hit_miss(occs.drop_first(), source, cursor);
    }
}

/// Self-reference and boundary law: an occurrence registered as its own
/// first reference is found from a cursor on either boundary gap of its
/// own span, provided occurrences do not overlap.
pub proof fn lemma_self_reference(occs: Seq<Occurrence>, i: int)
    requires
        occ_disjoint(occs),
        0 <= i < occs.len(),
        occs[i].pos.start <= occs[i].pos.end,
        occs[i].reference == Some(occs[i].pos),
    ensures
        first_hit(occs, occs[i].pos.source, occs[i].pos.start) == Some(occs[i]),
        first_hit(occs, occs[i].pos.source, occs[i].pos.end) == Some(occs[i]),
    decreases occs.len(),
{
    lemma_first_hit_finds(occs, occs[i].pos.source, occs[i].pos.start, i);
    lemma_first_hit_finds(occs, occs[i].pos.source, occs[i].pos.end, i);
}

/// Find-all-references law, membership direction: a position is reported
/// exactly when some occurrence at that position resolved to the queried
/// declaration.
pub proof fn lemma_refs_to_characterization(
    occs: Seq<Occurrence>,
    declaration: SrcPos,
    p: SrcPos,
)
    ensures
        refs_to(occs, declaration).contains(p) <==> exists|i: int|
            0 <= i < occs.len() && (#[trigger] occs[i]).pos == p && occs[i].reference == Some(
                declaration,
            ),
    decreases occs.len(),
{
    if occs.len() == 0 {
    } else {
        let rest = occs.drop_first();
        let head: Seq<SrcPos> = if occs[0].reference == Some(declaration) {
            seq![occs[0].pos]
        } else {
            Seq::<SrcPos>::empty()
        };
        let full = refs_to(occs, declaration);
        lemma_refs_to_characterization(rest, declaration, p);
        assert(forall|j: int| 0 <= j < rest.len() ==> #[trigger] rest[j] == occs[j + 1]);
        assert(full == head + refs_to(rest, declaration));
        if full.contains(p) {
            let k = choose|k: int| 0 <= k < full.len() && full[k] == p;
            if k < head.len() {
                assert(occs[0].pos == p && occs[0].reference == Some(declaration));
            } else {
                assert(refs_to(rest, declaration)[k - head.len()] == p);
                assert(refs_to(rest, declaration).contains(p));
                let j = choose|j: int|
                    0 <= j < rest.len() && (#[trigger] rest[j]).pos == p && rest[j].reference
                        == Some(declaration);
                assert(occs[j + 1].pos == p && occs[j + 1].reference == Some(declaration));
            }
        }
        if exists|i: int|
            0 <= i < occs.len() && (#[trigger] occs[i]).pos == p && occs[i].reference == Some(
                declaration,
            ) {
            let i = choose|i: int|
                0 <= i < occs.len() && (#[trigger] occs[i]).pos == p && occs[i].reference == Some(
                    declaration,
                );
            if i == 0 {
                assert(full[0] == p);
                assert(full.contains(p));
            } else {
                assert(rest[i - 1] == occs[i]);
                assert(refs_to(rest, declaration).contains(p));
                let k = choose|k: int|
                    0 <= k < refs_to(rest, declaration).len() && refs_to(rest, declaration)[k]
                        == p;
                assert(full[head.len() + k] == p);
                assert(full.contains(p));
            }
        }
    }
}

/// Find-all-references law, cursor direction: wherever the reference
/// search answers with a declaration's position, the occurrence under
/// that cursor is among the declaration's references.
pub proof fn lemma_search_found_in_refs(
    occs: Seq<Occurrence>,
    source: Source,
    cursor: usize,
    declaration: SrcPos,
)
    requires
        first_hit(occs, source, cursor) is Some,
        first_hit(occs, source, cursor).unwrap().reference == Some(declaration),
    ensures
        refs_to(occs, declaration).contains(first_hit(occs, source, cursor).unwrap().pos),
    decreases occs.len(),
{
    if occs.len() > 0 {
        if occs[0].pos.source == source && occs[0].pos.spec_contains(cursor) {
            lemma_refs_to_characterization(occs, declaration, occs[0].pos);
        } else {
            lemma_search_found_in_refs(occs.drop_first(), source, cursor, declaration);
            let p = first_hit(occs, source, cursor).unwrap().pos;
            lemma_refs_to_characterization(occs.drop_first(), declaration, p);
            lemma_refs_to_characterization(occs, declaration, p);
            assert(forall|j: int|
                0 <= j < occs.drop_first().len() ==> occs.drop_first()[j] == occs[j + 1]);
        }
    }
}

/// Self-reference law at root level: wherever a declaration registered
/// itself, a reference search at either boundary gap of its own position
/// answers with that position.  [`crate::analysis::lemma_analysis_self_registers`]
/// supplies the registered occurrence for every analyzed design.
pub proof fn lemma_self_reference_at(occs: Seq<Occurrence>, declaration: SrcPos)
    requires
        occ_disjoint(occs),
        declaration.start <= declaration.end,
        occs.contains(Occurrence { pos: declaration, reference: Some(declaration) }),
    ensures
        first_hit(occs, declaration.source, declaration.start) == Some(
            Occurrence { pos: declaration, reference: Some(declaration) },
        ),
        first_hit(occs, declaration.source, declaration.end) == Some(
            Occurrence { pos: declaration, reference: Some(declaration) },
        ),
{
    let target = Occurrence { pos: declaration, reference: Some(declaration) };
    let k = choose|k: int| 0 <= k < occs.len() && occs[k] == target;
    lemma_self_reference(occs, k);
}

/// Find-all-references law, declaration direction: a declaration that
/// registered itself is among its own references.
pub proof fn lemma_declaration_among_references(occs: Seq<Occurrence>, declaration: SrcPos)
    requires
        occs.contains(Occurrence { pos: declaration, reference: Some(declaration) }),
    ensures
        refs_to(occs, declaration).contains(declaration),
{
    let target = Occurrence { pos: declaration, reference: Some(declaration) };
    let k = choose|k: int| 0 <= k < occs.len() && occs[k] == target;
    lemma_refs_to_characterization(occs, declaration, declaration);
}

} // verus!
