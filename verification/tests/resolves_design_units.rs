use vhdl_analysis::analysis::{Diagnostic, Severity};
use vhdl_analysis::ast::{
    AnyDesignUnit, ArchitectureUnit, ComponentDeclaration, ConcurrentStatement,
    ConfigurationUnit, Declaration, DesignRoot, Designator, EntityUnit, InstantiatedUnit,
    InstantiationStatement, LabeledConcurrentStatement, Library, PackageBodyUnit, PackageUnit,
    QualifiedName, SelectedName, Source, SrcPos,
};

fn word(code: &str, sid: usize, needle: &str, occurrence: usize) -> SrcPos {
    let bytes = code.as_bytes();
    let mut count = 0usize;
    let mut from = 0usize;
    while let Some(off) = code[from..].find(needle) {
        let p = from + off;
        let after = p + needle.len();
        let before_ok = p == 0 || {
            let c = bytes[p - 1] as char;
            !(c.is_alphanumeric() || c == '_')
        };
        let after_ok = after >= bytes.len() || {
            let c = bytes[after] as char;
            !(c.is_alphanumeric() || c == '_')
        };
        if before_ok && after_ok {
            count += 1;
            if count == occurrence {
                return SrcPos { source: Source { id: sid }, start: p, end: after };
            }
        }
        from = p + 1;
    }
    panic!("needle {:?} occurrence {} not found", needle, occurrence);
}

fn des(code: &str, sid: usize, name: &str, occurrence: usize) -> Designator {
    Designator {
        pos: word(code, sid, name, occurrence),
        name: name.to_string(),
        reference: None,
    }
}

fn entity(code: &str, sid: usize, name: &str, occ: usize) -> EntityUnit {
    EntityUnit {
        source: Source { id: sid },
        ident: des(code, sid, name, occ),
        generic_clause: None,
        port_clause: None,
        decl: vec![],
        statements: vec![],
    }
}

fn instance(label: &str, unit: InstantiatedUnit, name: SelectedName)
    -> LabeledConcurrentStatement {
    LabeledConcurrentStatement {
        label: Some(label.to_string()),
        statement: ConcurrentStatement::Instance(InstantiationStatement { unit, name }),
    }
}


fn lib1(name: &str, units: Vec<AnyDesignUnit>) -> DesignRoot {
    let library = Library { name: name.to_string(), units };
    DesignRoot { libraries: vec![library] }
}

fn cfg_unit(sid: usize, ident: Designator, entity_name: SelectedName) -> AnyDesignUnit {
    let unit = ConfigurationUnit { source: Source { id: sid }, ident, entity_name };
    AnyDesignUnit::Configuration(unit)
}

fn arch_unit(
    sid: usize,
    ident: Designator,
    entity_name: Designator,
    decl: Vec<Declaration>,
    statements: Vec<LabeledConcurrentStatement>,
) -> AnyDesignUnit {
    let unit = ArchitectureUnit { source: Source { id: sid }, ident, entity_name, decl, statements };
    AnyDesignUnit::Architecture(unit)
}

fn qual(pos: SrcPos, library: &str, library_pos: SrcPos, designator: Designator) -> SelectedName {
    let name = QualifiedName {
        pos,
        library_name: library.to_string(),
        library_pos,
        designator,
    };
    SelectedName::Qualified(name)
}

fn check_diagnostics(actual: Vec<Diagnostic>, expected: Vec<(SrcPos, &str)>) {
    let got: Vec<(SrcPos, String)> =
        actual.iter().map(|d| (d.pos, d.message.clone())).collect();
    let want: Vec<(SrcPos, String)> =
        expected.iter().map(|(p, m)| (*p, m.to_string())).collect();
    assert_eq!(got, want);
    for d in actual.iter() {
        assert_eq!(d.severity, Severity::Error);
    }
}

fn check_no_diagnostics(diagnostics: &Vec<Diagnostic>) {
    assert!(
        diagnostics.is_empty(),
        "expected no diagnostics, got {:?}",
        diagnostics
    );
}

fn assert_eq_unordered(actual: &Vec<SrcPos>, expected: &Vec<SrcPos>) {
    let mut a = actual.clone();
    let mut e = expected.clone();
    a.sort();
    e.sort();
    assert_eq!(a, e);
}

#[test]
fn error_on_configuration_before_entity_in_same_file() {
    let code = "
configuration cfg of ent is
for rtl
end for;
end configuration;

entity ent is
end entity;
";
    let cfg = cfg_unit(0, des(code, 0, "cfg", 1), SelectedName::Simple(des(code, 0, "ent", 1)));
    let ent = AnyDesignUnit::Entity(entity(code, 0, "ent", 2));
    let mut root = lib1("libname", vec![cfg, ent]);
    let diagnostics = root.analyze();
    check_diagnostics(
        diagnostics,
        vec![(
            word(code, 0, "cfg", 1),
            "Configuration 'cfg' declared before entity 'ent'",
        )],
    );
}

#[test]
fn error_on_configuration_of_missing_entity() {
    let code = "
configuration cfg of ent is
for rtl
end for;
end configuration;
";
    let cfg = cfg_unit(0, des(code, 0, "cfg", 1), SelectedName::Simple(des(code, 0, "ent", 1)));
    let mut root = lib1("libname", vec![cfg]);
    let diagnostics = root.analyze();
    check_diagnostics(
        diagnostics,
        vec![(word(code, 0, "ent", 1), "No declaration of 'ent'")],
    );
}

#[test]
fn good_configurations() {
    let code = "
entity ent is
end entity;

configuration cfg_good1 of ent is
for rtl
end for;
end configuration;

configuration cfg_good2 of work.ent is
for rtl
end for;
end configuration;

library libname;
configuration cfg_good3 of libname.ent is
for rtl
end for;
end configuration;
";
    let ent = AnyDesignUnit::Entity(entity(code, 0, "ent", 1));
    let cfg1 = cfg_unit(
        0,
        des(code, 0, "cfg_good1", 1),
        SelectedName::Simple(des(code, 0, "ent", 2)),
    );
    let name2 = qual(
        word(code, 0, "work.ent", 1),
        "work",
        word(code, 0, "work", 1),
        des(code, 0, "ent", 3),
    );
    let cfg2 = cfg_unit(0, des(code, 0, "cfg_good2", 1), name2);
    let name3 = qual(
        word(code, 0, "libname.ent", 1),
        "libname",
        word(code, 0, "libname", 2),
        des(code, 0, "ent", 4),
    );
    let cfg3 = cfg_unit(0, des(code, 0, "cfg_good3", 1), name3);
    let mut root = lib1("libname", vec![ent, cfg1, cfg2, cfg3]);
    let diagnostics = root.analyze();
    check_no_diagnostics(&diagnostics);
}

#[test]
fn error_on_configuration_of_entity_outside_of_library() {
    let code2 = "
entity ent is
end entity;";
    let code = "
library lib2;

configuration cfg of lib2.ent is
for rtl
end for;
end configuration;
";
    let foreign_name = qual(
        word(code, 1, "lib2.ent", 1),
        "lib2",
        word(code, 1, "lib2", 2),
        des(code, 1, "ent", 1),
    );
    let cfg = cfg_unit(1, des(code, 1, "cfg", 1), foreign_name);
    let lib2 = Library {
        name: "lib2".to_string(),
        units: vec![AnyDesignUnit::Entity(entity(code2, 0, "ent", 1))],
    };
    let libname = Library { name: "libname".to_string(), units: vec![cfg] };
    let mut root = DesignRoot { libraries: vec![lib2, libname] };
    let diagnostics = root.analyze();
    check_diagnostics(
        diagnostics,
        vec![(
            word(code, 1, "lib2.ent", 1),
            "Configuration must be within the same library 'libname' as the corresponding entity",
        )],
    );
}

#[test]
fn search_reference_from_configuration_to_entity() {
    let code = "
entity ename is
end entity;

configuration cfg_good1 of ename is
for rtl
end for;
end configuration;
";
    let ent = AnyDesignUnit::Entity(entity(code, 0, "ename", 1));
    let cfg = cfg_unit(
        0,
        des(code, 0, "cfg_good1", 1),
        SelectedName::Simple(des(code, 0, "ename", 2)),
    );
    let mut root = lib1("libname", vec![ent, cfg]);
    let diagnostics = root.analyze();
    check_no_diagnostics(&diagnostics);

    let source = Source { id: 0 };

    // From reference
    assert_eq!(
        root.search_reference(&source, word(code, 0, "ename", 2).start),
        Some(word(code, 0, "ename", 1))
    );

    // From declaration position
    assert_eq!(
        root.search_reference(&source, word(code, 0, "ename", 1).start),
        Some(word(code, 0, "ename", 1))
    );

    // Find all references
    assert_eq_unordered(
        &root.find_all_references(&word(code, 0, "ename", 1)),
        &vec![word(code, 0, "ename", 1), word(code, 0, "ename", 2)],
    );
}

#[test]
fn resolves_reference_from_architecture_to_entity() {
    let code = "
entity ename1 is
end entity;

architecture a of ename1 is
begin
end architecture;
";
    let ent = AnyDesignUnit::Entity(entity(code, 0, "ename1", 1));
    let arch = arch_unit(0, des(code, 0, "a", 1), des(code, 0, "ename1", 2), vec![], vec![]);
    let mut root = lib1("libname", vec![ent, arch]);
    let diagnostics = root.analyze();
    check_no_diagnostics(&diagnostics);

    let source = Source { id: 0 };

    // From reference position
    assert_eq!(
        root.search_reference(&source, word(code, 0, "ename1", 2).start),
        Some(word(code, 0, "ename1", 1))
    );

    // Find all references
    assert_eq_unordered(
        &root.find_all_references(&word(code, 0, "ename1", 1)),
        &vec![word(code, 0, "ename1", 1), word(code, 0, "ename1", 2)],
    );
}

#[test]
fn resolves_reference_to_entity_instance() {
    let code = "
entity ename1 is
end entity;

architecture a of ename1 is
begin
end architecture;

entity ename2 is
end entity;

architecture a of ename2 is
begin
  bad_inst : entity work.missing;
  inst : entity work.ename1;
end architecture;
";
    let ent1 = AnyDesignUnit::Entity(entity(code, 0, "ename1", 1));
    let arch1 = arch_unit(0, des(code, 0, "a", 1), des(code, 0, "ename1", 2), vec![], vec![]);
    let ent2 = AnyDesignUnit::Entity(entity(code, 0, "ename2", 1));
    let bad_name = qual(
        word(code, 0, "work.missing", 1),
        "work",
        word(code, 0, "work", 1),
        des(code, 0, "missing", 1),
    );
    let bad_inst = instance("bad_inst", InstantiatedUnit::Entity, bad_name);
    let good_name = qual(
        word(code, 0, "work.ename1", 1),
        "work",
        word(code, 0, "work", 2),
        des(code, 0, "ename1", 3),
    );
    let inst = instance("inst", InstantiatedUnit::Entity, good_name);
    let arch2 = arch_unit(
        0,
        des(code, 0, "a", 2),
        des(code, 0, "ename2", 2),
        vec![],
        vec![bad_inst, inst],
    );
    let mut root = lib1("libname", vec![ent1, arch1, ent2, arch2]);
    let diagnostics = root.analyze();
    check_diagnostics(
        diagnostics,
        vec![(
            word(code, 0, "missing", 1),
            "No primary unit 'missing' within 'libname'",
        )],
    );

    let source = Source { id: 0 };

    // From reference position
    assert_eq!(
        root.search_reference(&source, word(code, 0, "ename1", 3).start),
        Some(word(code, 0, "ename1", 1))
    );

    // Find all references
    assert_eq_unordered(
        &root.find_all_references(&word(code, 0, "ename1", 1)),
        &vec![
            word(code, 0, "ename1", 1),
            word(code, 0, "ename1", 2),
            word(code, 0, "ename1", 3),
        ],
    );
}

#[test]
fn resolves_component_instance() {
    let code = "
entity ent is
end entity;

architecture a of ent is
begin
  inst : component missing;
end architecture;
";
    let ent = AnyDesignUnit::Entity(entity(code, 0, "ent", 1));
    let inst = instance(
        "inst",
        InstantiatedUnit::Component,
        SelectedName::Simple(des(code, 0, "missing", 1)),
    );
    let arch = arch_unit(0, des(code, 0, "a", 1), des(code, 0, "ent", 2), vec![], vec![inst]);
    let mut root = lib1("libname", vec![ent, arch]);
    let diagnostics = root.analyze();
    check_diagnostics(
        diagnostics,
        vec![(word(code, 0, "missing", 1), "No declaration of 'missing'")],
    );
}

#[test]
fn search_component_instance() {
    let code = "
entity ent is
end entity;

architecture a of ent is
  component decl is
  end component;
begin
  inst : component decl;
end architecture;
";
    let ent = AnyDesignUnit::Entity(entity(code, 0, "ent", 1));
    let component = Declaration::Component(ComponentDeclaration {
        ident: des(code, 0, "decl", 1),
    });
    let inst = instance(
        "inst",
        InstantiatedUnit::Component,
        SelectedName::Simple(des(code, 0, "decl", 2)),
    );
    let arch = arch_unit(
        0,
        des(code, 0, "a", 1),
        des(code, 0, "ent", 2),
        vec![component],
        vec![inst],
    );
    let mut root = lib1("libname", vec![ent, arch]);
    let diagnostics = root.analyze();
    check_no_diagnostics(&diagnostics);

    let source = Source { id: 0 };
    let decl_pos = word(code, 0, "decl", 1);

    // From declaration position and from reference position
    assert_eq!(
        root.search_reference(&source, word(code, 0, "decl", 1).start),
        Some(decl_pos)
    );
    assert_eq!(
        root.search_reference(&source, word(code, 0, "decl", 2).start),
        Some(decl_pos)
    );

    // Find all references
    assert_eq_unordered(
        &root.find_all_references(&decl_pos),
        &vec![word(code, 0, "decl", 1), word(code, 0, "decl", 2)],
    );
}

#[test]
fn resolves_configuration_instance() {
    let code = "
entity ent is
end entity;

architecture a of ent is
begin
  inst : configuration missing;
end architecture;
";
    let ent = AnyDesignUnit::Entity(entity(code, 0, "ent", 1));
    let inst = instance(
        "inst",
        InstantiatedUnit::Configuration,
        SelectedName::Simple(des(code, 0, "missing", 1)),
    );
    let arch = arch_unit(0, des(code, 0, "a", 1), des(code, 0, "ent", 2), vec![], vec![inst]);
    let mut root = lib1("libname", vec![ent, arch]);
    let diagnostics = root.analyze();
    check_diagnostics(
        diagnostics,
        vec![(
            word(code, 0, "missing", 1),
            "No primary unit 'missing' within 'libname'",
        )],
    );
}

#[test]
fn search_configuration_instance() {
    let code = "
entity ent is
end entity;

configuration decl of ent is
  for a
  end for;
end configuration;

architecture a of ent is
begin
  inst : configuration work.decl;
end architecture;


";
    let ent = AnyDesignUnit::Entity(entity(code, 0, "ent", 1));
    let cfg = cfg_unit(0, des(code, 0, "decl", 1), SelectedName::Simple(des(code, 0, "ent", 2)));
    let inst_name = qual(
        word(code, 0, "work.decl", 1),
        "work",
        word(code, 0, "work", 1),
        des(code, 0, "decl", 2),
    );
    let inst = instance("inst", InstantiatedUnit::Configuration, inst_name);
    let arch = arch_unit(0, des(code, 0, "a", 2), des(code, 0, "ent", 3), vec![], vec![inst]);
    let mut root = lib1("libname", vec![ent, cfg, arch]);
    let diagnostics = root.analyze();
    check_no_diagnostics(&diagnostics);

    let source = Source { id: 0 };
    let decl_pos = word(code, 0, "decl", 1);

    assert_eq!(
        root.search_reference(&source, word(code, 0, "decl", 1).start),
        Some(decl_pos)
    );
    assert_eq!(
        root.search_reference(&source, word(code, 0, "decl", 2).start),
        Some(decl_pos)
    );
    assert_eq_unordered(
        &root.find_all_references(&decl_pos),
        &vec![word(code, 0, "decl", 1), word(code, 0, "decl", 2)],
    );
}

#[test]
fn resolves_reference_to_package_body() {
    let code = "
package pkg is
end package;

package body pkg is
end package body;
";
    let package = AnyDesignUnit::Package(PackageUnit {
        source: Source { id: 0 },
        ident: des(code, 0, "pkg", 1),
        generic_clause: None,
        decl: vec![],
    });
    let body = AnyDesignUnit::PackageBody(PackageBodyUnit {
        source: Source { id: 0 },
        ident: des(code, 0, "pkg", 2),
        decl: vec![],
    });
    let mut root = lib1("libname", vec![package, body]);
    let diagnostics = root.analyze();
    check_no_diagnostics(&diagnostics);

    let source = Source { id: 0 };

    // From declaration position
    assert_eq!(
        root.search_reference(&source, word(code, 0, "pkg", 1).start),
        Some(word(code, 0, "pkg", 1))
    );

    // From reference position
    assert_eq!(
        root.search_reference(&source, word(code, 0, "pkg", 2).start),
        Some(word(code, 0, "pkg", 1))
    );

    // Find all references
    assert_eq_unordered(
        &root.find_all_references(&word(code, 0, "pkg", 1)),
        &vec![word(code, 0, "pkg", 1), word(code, 0, "pkg", 2)],
    );
}
