use vhdl_analysis::analysis::{Diagnostic, Severity};
use vhdl_analysis::ast::{
    AnyDesignUnit, ArchitectureUnit, ConcurrentStatement, ConfigurationUnit,
    DesignRoot, Designator, EntityUnit, InstantiatedUnit, InstantiationStatement,
    LabeledConcurrentStatement, Library, QualifiedName, SelectedName, Source, SrcPos,
};
use vhdl_analysis::search::{ReferenceSearcher, Search, SearchResult};

fn word(code: &str, sid: usize, needle: &str, occurrence: usize) -> SrcPos {
    let bytes = code.as_bytes();
    let mut count = 0usize;
    let mut from = 0usize;
    while let Some(off) = code[from..].find(needle) {
        let p = from + off;
        let after = p + needle.len();
        let before_ok = p == 0 || {
            let c = bytes[p - 1] as char;
            !(c.is_alphanumeric() || c == '_')
        };
        let after_ok = after >= bytes.len() || {
            let c = bytes[after] as char;
            !(c.is_alphanumeric() || c == '_')
        };
        if before_ok && after_ok {
            count += 1;
            if count == occurrence {
                return SrcPos { source: Source { id: sid }, start: p, end: after };
            }
        }
        from = p + 1;
    }
    panic!("needle {:?} occurrence {} not found", needle, occurrence);
}

fn des(code: &str, sid: usize, name: &str, occurrence: usize) -> Designator {
    Designator {
        pos: word(code, sid, name, occurrence),
        name: name.to_string(),
        reference: None,
    }
}

fn entity(code: &str, sid: usize, name: &str, occ: usize) -> EntityUnit {
    EntityUnit {
        source: Source { id: sid },
        ident: des(code, sid, name, occ),
        generic_clause: None,
        port_clause: None,
        decl: vec![],
        statements: vec![],
    }
}

fn lib1(name: &str, units: Vec<AnyDesignUnit>) -> DesignRoot {
    let library = Library { name: name.to_string(), units };
    DesignRoot { libraries: vec![library] }
}

fn cfg_unit(sid: usize, ident: Designator, entity_name: SelectedName) -> AnyDesignUnit {
    let unit = ConfigurationUnit { source: Source { id: sid }, ident, entity_name };
    AnyDesignUnit::Configuration(unit)
}

fn diag_triples(diagnostics: &Vec<Diagnostic>) -> Vec<(Severity, SrcPos, String)> {
    diagnostics.iter().map(|d| (d.severity, d.pos, d.message.clone())).collect()
}

const IDEMPOTENT_CODE: &str = "
entity ename1 is
end entity;

architecture a of ename1 is
begin
  bad_inst : entity work.missing;
  inst : entity work.ename1;
end architecture;
";

fn idempotent_root() -> DesignRoot {
    let code = IDEMPOTENT_CODE;
    let ent = AnyDesignUnit::Entity(entity(code, 0, "ename1", 1));
    let bad_name = QualifiedName {
        pos: word(code, 0, "work.missing", 1),
        library_name: "work".to_string(),
        library_pos: word(code, 0, "work", 1),
        designator: des(code, 0, "missing", 1),
    };
    let bad_inst = LabeledConcurrentStatement {
        label: Some("bad_inst".to_string()),
        statement: ConcurrentStatement::Instance(InstantiationStatement {
            unit: InstantiatedUnit::Entity,
            name: SelectedName::Qualified(bad_name),
        }),
    };
    let good_name = QualifiedName {
        pos: word(code, 0, "work.ename1", 1),
        library_name: "work".to_string(),
        library_pos: word(code, 0, "work", 2),
        designator: des(code, 0, "ename1", 3),
    };
    let inst = LabeledConcurrentStatement {
        label: Some("inst".to_string()),
        statement: ConcurrentStatement::Instance(InstantiationStatement {
            unit: InstantiatedUnit::Entity,
            name: SelectedName::Qualified(good_name),
        }),
    };
    let arch = AnyDesignUnit::Architecture(ArchitectureUnit {
        source: Source { id: 0 },
        ident: des(code, 0, "a", 1),
        entity_name: des(code, 0, "ename1", 2),
        decl: vec![],
        statements: vec![bad_inst, inst],
    });
    lib1("libname", vec![ent, arch])
}

#[test]
fn analyze_twice_yields_identical_results() {
    let mut root = idempotent_root();
    let first = root.analyze();
    let occs_first: Vec<(SrcPos, Option<SrcPos>)> =
        root.occurrences().iter().map(|o| (o.pos, o.reference)).collect();
    let second = root.analyze();
    let occs_second: Vec<(SrcPos, Option<SrcPos>)> =
        root.occurrences().iter().map(|o| (o.pos, o.reference)).collect();
    assert_eq!(diag_triples(&first), diag_triples(&second));
    assert_eq!(occs_first, occs_second);
    assert_eq!(first.len(), 1);
}

#[test]
fn every_registered_occurrence_is_resolved_or_diagnosed() {
    let mut root = idempotent_root();
    let diagnostics = root.analyze();
    for occurrence in root.occurrences() {
        if occurrence.reference.is_none() {
            assert!(
                diagnostics.iter().any(|d| d.pos == occurrence.pos),
                "occurrence at {:?} unresolved and undiagnosed",
                occurrence.pos
            );
        }
    }
    let missing = word(IDEMPOTENT_CODE, 0, "missing", 1);
    let unresolved: Vec<SrcPos> = root
        .occurrences()
        .iter()
        .filter(|o| o.reference.is_none())
        .map(|o| o.pos)
        .collect();
    assert_eq!(unresolved, vec![missing]);
}

#[test]
fn cursor_matches_both_boundaries_and_nothing_beyond() {
    let code = "
entity ename is
end entity;

configuration cfg of ename is
for rtl
end for;
end configuration;
";
    let ent = AnyDesignUnit::Entity(entity(code, 0, "ename", 1));
    let cfg = cfg_unit(0, des(code, 0, "cfg", 1), SelectedName::Simple(des(code, 0, "ename", 2)));
    let mut root = lib1("libname", vec![ent, cfg]);
    let diagnostics = root.analyze();
    assert!(diagnostics.is_empty());

    let source = Source { id: 0 };
    let declaration = word(code, 0, "ename", 1);
    let reference = word(code, 0, "ename", 2);

    // Inclusive on the gap before the first character and after the last.
    assert_eq!(root.search_reference(&source, reference.start), Some(declaration));
    assert_eq!(root.search_reference(&source, reference.end), Some(declaration));
    // One gap beyond either end matches nothing: those gaps touch only
    // the surrounding blanks.
    assert_eq!(root.search_reference(&source, reference.start - 1), None);
    assert_eq!(root.search_reference(&source, reference.end + 1), None);
    // Another source never matches.
    assert_eq!(root.search_reference(&Source { id: 9 }, reference.start), None);
}

#[test]
fn duplicate_primary_unit_reported_and_first_wins() {
    let code = "
entity ent is
end entity;

entity ent is
end entity;

configuration cfg of ent is
for rtl
end for;
end configuration;
";
    let first = AnyDesignUnit::Entity(entity(code, 0, "ent", 1));
    let second = AnyDesignUnit::Entity(entity(code, 0, "ent", 2));
    let cfg = cfg_unit(0, des(code, 0, "cfg", 1), SelectedName::Simple(des(code, 0, "ent", 3)));
    let mut root = lib1("libname", vec![first, second, cfg]);
    let diagnostics = root.analyze();
    assert_eq!(diagnostics.len(), 1);
    assert_eq!(diagnostics[0].pos, word(code, 0, "ent", 2));
    assert_eq!(diagnostics[0].message, "Duplicate primary unit 'ent'");

    // The first declaration stays authoritative.
    let source = Source { id: 0 };
    assert_eq!(
        root.search_reference(&source, word(code, 0, "ent", 3).start),
        Some(word(code, 0, "ent", 1))
    );
}

#[test]
fn reference_searcher_walks_resolved_units() {
    let code = "
entity ename is
end entity;

configuration cfg of ename is
for rtl
end for;
end configuration;
";
    let ent = AnyDesignUnit::Entity(entity(code, 0, "ename", 1));
    let cfg = cfg_unit(0, des(code, 0, "cfg", 1), SelectedName::Simple(des(code, 0, "ename", 2)));
    let mut root = lib1("libname", vec![ent, cfg]);
    let diagnostics = root.analyze();
    assert!(diagnostics.is_empty());

    let source = Source { id: 0 };
    let declaration = word(code, 0, "ename", 1);
    let reference = word(code, 0, "ename", 2);

    let resolved_cfg = match &root.libraries[0].units[1] {
        AnyDesignUnit::Configuration(c) => c,
        _ => panic!("expected the configuration"),
    };
    let mut searcher = ReferenceSearcher::new(&source, reference.start);
    let found: Option<SrcPos> = resolved_cfg.search(&mut searcher).into_option();
    assert_eq!(found, Some(declaration));

    // A searcher for another source prunes the whole unit.
    let mut foreign = ReferenceSearcher::new(&Source { id: 9 }, reference.start);
    let not_found: Option<SrcPos> = resolved_cfg.search(&mut foreign).into_option();
    assert_eq!(not_found, None);

    // A cursor outside every span finishes empty-handed.
    let mut miss = ReferenceSearcher::new(&source, 0);
    match resolved_cfg.search(&mut miss) {
        SearchResult::Found(_) => panic!("nothing should match the first gap"),
        SearchResult::NotFound => {},
    }
}

#[test]
fn empty_design_analyzes_to_nothing() {
    let mut root = DesignRoot { libraries: vec![] };
    let diagnostics = root.analyze();
    assert!(diagnostics.is_empty());
    assert_eq!(root.search_reference(&Source { id: 0 }, 0), None);
    assert!(root.find_all_references(&SrcPos {
        source: Source { id: 0 },
        start: 0,
        end: 1
    })
    .is_empty());
}

#[test]
fn instantiation_from_unknown_library_names_that_library() {
    let code = "
entity ent is
end entity;

architecture a of ent is
begin
  inst : entity lib3.thing;
end architecture;
";
    let ent = AnyDesignUnit::Entity(entity(code, 0, "ent", 1));
    let inst_name = QualifiedName {
        pos: word(code, 0, "lib3.thing", 1),
        library_name: "lib3".to_string(),
        library_pos: word(code, 0, "lib3", 1),
        designator: des(code, 0, "thing", 1),
    };
    let inst = LabeledConcurrentStatement {
        label: Some("inst".to_string()),
        statement: ConcurrentStatement::Instance(InstantiationStatement {
            unit: InstantiatedUnit::Entity,
            name: SelectedName::Qualified(inst_name),
        }),
    };
    let arch = AnyDesignUnit::Architecture(ArchitectureUnit {
        source: Source { id: 0 },
        ident: des(code, 0, "a", 1),
        entity_name: des(code, 0, "ent", 2),
        decl: vec![],
        statements: vec![inst],
    });
    let mut root = lib1("libname", vec![ent, arch]);
    let diagnostics = root.analyze();
    assert_eq!(diagnostics.len(), 1);
    assert_eq!(diagnostics[0].pos, word(code, 0, "thing", 1));
    assert_eq!(diagnostics[0].message, "No primary unit 'thing' within 'lib3'");
}

#[test]
fn find_all_references_of_unused_declaration_is_only_itself() {
    let code = "
entity lonely is
end entity;
";
    let ent = AnyDesignUnit::Entity(entity(code, 0, "lonely", 1));
    let mut root = lib1("libname", vec![ent]);
    let diagnostics = root.analyze();
    assert!(diagnostics.is_empty());
    let declaration = word(code, 0, "lonely", 1);
    assert_eq!(root.find_all_references(&declaration), vec![declaration]);
}
