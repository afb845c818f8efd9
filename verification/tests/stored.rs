use cubos_sql::catalog::PgCatalog;
use cubos_sql::encoding::{deserialize, read_stored, serialize, DecodeFault};
use cubos_sql::pg_catalog::{
    CastContext, CastMethod, ConType, DepType, PgAttribute, PgCast, PgClass, PgConstraint, PgDepend,
    PgEnum, PgInherits, PgNamespace, PgType, RelKind, TypCategory, TypType,
};
use cubos_sql::seed::PgCatalogSeed;

fn namespace(oid: u32, name: &str) -> PgNamespace {
    PgNamespace { oid, nspname: name.to_string() }
}

fn plain_type(oid: u32, name: &str) -> PgType {
    PgType {
        oid,
        typname: name.to_string(),
        typnamespace: 11,
        typtype: TypType::Base,
        typcategory: TypCategory::Numeric,
        typispreferred: false,
        typrelid: None,
        typelem: None,
        typarray: None,
        typbasetype: None,
        typnotnull: false,
        typtypmod: None,
    }
}

fn column(relid: u32, name: &str, number: i16) -> PgAttribute {
    PgAttribute {
        attrelid: relid,
        attname: name.to_string(),
        atttypid: 23,
        attnum: number,
        attnotnull: false,
        atthasdef: false,
        attgenerated: None,
        atttypmod: None,
        attidentity: None,
    }
}

fn class(oid: u32, name: &str) -> PgClass {
    PgClass {
        oid,
        relname: name.to_string(),
        relnamespace: 2200,
        relkind: RelKind::Table,
        reltype: None,
    }
}

fn dependency(objid: u32, refobjid: u32) -> PgDepend {
    PgDepend {
        classid: 1259,
        objid,
        objsubid: 0,
        refclassid: 1259,
        refobjid,
        refobjsubid: 0,
        deptype: DepType::Normal,
    }
}

fn empty_seed() -> PgCatalogSeed {
    PgCatalogSeed::default()
}

#[test]
fn empty_seed_gives_the_first_user_oid() {
    let mut db = PgCatalog::from_seed(empty_seed());
    assert_eq!(db.next_oid, 100_001);
    assert_eq!(db.alloc_oid().unwrap(), 100_001);
    assert_eq!(db.alloc_oid().unwrap(), 100_002);
}

#[test]
fn new_oids_are_behind_those_of_the_seed() {
    let mut seed = empty_seed();
    seed.pg_class.push(class(123_456, "t"));
    let db = PgCatalog::from_seed(seed);
    assert_eq!(db.next_oid, 123_457);

    let mut seed = empty_seed();
    seed.pg_enum.push(PgEnum { oid: 200_000, enumtypid: 5, enumlabel: "a".to_string() });
    let db = PgCatalog::from_seed(seed);
    assert_eq!(db.next_oid, 200_001);

    let mut seed = empty_seed();
    seed.pg_constraint.push(PgConstraint {
        oid: 200_000,
        conname: "c".to_string(),
        conrelid: 1,
        contype: ConType::Check,
        conkey: vec![],
        confrelid: None,
        confkey: vec![],
    });
    let db = PgCatalog::from_seed(seed);
    assert_eq!(db.next_oid, 200_001);
}

#[test]
fn the_last_oid_is_not_passed() {
    let mut seed = empty_seed();
    seed.pg_class.push(class(u32::MAX, "t"));
    let mut db = PgCatalog::from_seed(seed);
    assert_eq!(db.next_oid, u32::MAX);
    assert_eq!(db.alloc_oid().unwrap_err().message(), "OID counter overflowed");
}

#[test]
fn a_seed_is_loaded_with_its_names() {
    let mut seed = empty_seed();
    seed.pg_namespace.push(namespace(11, "pg_catalog"));
    seed.pg_namespace.push(namespace(2200, "public"));
    seed.pg_type.push(plain_type(23, "int4"));
    seed.pg_class.push(class(500, "t"));
    seed.pg_attribute.push(column(500, "b", 2));
    seed.pg_attribute.push(column(500, "a", 1));
    seed.pg_cast.push(PgCast {
        oid: 900,
        castsource: 23,
        casttarget: 20,
        castcontext: CastContext::Implicit,
        castmethod: CastMethod::Function,
    });
    seed.search_path = vec![2200];
    let db = PgCatalog::from_seed(seed);
    assert_eq!(db.namespace_oid("public"), Some(2200));
    assert_eq!(db.namespace_name(11), Some("pg_catalog"));
    assert_eq!(db.resolve_type_by_name(None, "int4"), Some(23));
    assert_eq!(db.resolve_table(None, "t"), Some(500));
    let names: Vec<String> = db.attributes_of(500).into_iter().map(|a| a.attname).collect();
    assert_eq!(names, vec!["a", "b"]);
    assert_eq!(db.cast_between(23, 20).map(|c| c.oid), Some(900));
}

#[test]
fn stored_rows_stand_in_their_order() {
    let mut seed = empty_seed();
    seed.pg_namespace.push(namespace(2200, "public"));
    seed.pg_namespace.push(namespace(11, "pg_catalog"));
    seed.pg_type.push(plain_type(25, "text"));
    seed.pg_type.push(plain_type(23, "int4"));
    seed.pg_attribute.push(column(600, "x", 1));
    seed.pg_attribute.push(column(500, "b", 2));
    seed.pg_attribute.push(column(500, "a", 1));
    seed.pg_enum.push(PgEnum { oid: 3, enumtypid: 9, enumlabel: "z".to_string() });
    seed.pg_enum.push(PgEnum { oid: 2, enumtypid: 8, enumlabel: "y".to_string() });
    seed.pg_enum.push(PgEnum { oid: 1, enumtypid: 8, enumlabel: "x".to_string() });
    seed.pg_depend.push(dependency(7, 1));
    seed.pg_depend.push(dependency(5, 2));
    seed.pg_depend.push(dependency(5, 1));
    seed.pg_inherits.push(PgInherits { inhrelid: 4, inhparent: 1, inhseqno: 2 });
    seed.pg_inherits.push(PgInherits { inhrelid: 4, inhparent: 2, inhseqno: 1 });
    seed.search_path = vec![2200, 11];
    let stored = PgCatalog::from_seed(seed).to_seed();
    let oids: Vec<u32> = stored.pg_namespace.iter().map(|n| n.oid).collect();
    assert_eq!(oids, vec![11, 2200]);
    let oids: Vec<u32> = stored.pg_type.iter().map(|t| t.oid).collect();
    assert_eq!(oids, vec![23, 25]);
    let columns: Vec<(u32, &str)> =
        stored.pg_attribute.iter().map(|a| (a.attrelid, a.attname.as_str())).collect();
    assert_eq!(columns, vec![(500, "a"), (500, "b"), (600, "x")]);
    let labels: Vec<(u32, &str)> =
        stored.pg_enum.iter().map(|l| (l.enumtypid, l.enumlabel.as_str())).collect();
    assert_eq!(labels, vec![(8, "y"), (8, "x"), (9, "z")]);
    let deps: Vec<(u32, u32)> = stored.pg_depend.iter().map(|d| (d.objid, d.refobjid)).collect();
    assert_eq!(deps, vec![(5, 1), (5, 2), (7, 1)]);
    let parents: Vec<u32> = stored.pg_inherits.iter().map(|i| i.inhparent).collect();
    assert_eq!(parents, vec![2, 1]);
    assert_eq!(stored.search_path, vec![2200, 11]);
}

#[test]
fn a_stored_catalog_comes_back() {
    let mut seed = empty_seed();
    seed.pg_namespace.push(namespace(2200, "public"));
    seed.pg_class.push(class(500, "t"));
    seed.pg_attribute.push(column(500, "a", 1));
    let first = PgCatalog::from_seed(seed).to_seed();
    let text = format!("{:?}", first);
    let second = PgCatalog::from_seed(first).to_seed();
    assert_eq!(format!("{:?}", second), text);
}

#[test]
fn bytes_are_stored_as_base64() {
    assert_eq!(serialize(&b"hello world~".to_vec()), "aGVsbG8gd29ybGR+");
    assert_eq!(serialize(&vec![]), "");
    assert_eq!(serialize(&vec![0]), "AA==");
    for n in 0..40u8 {
        let bytes: Vec<u8> = (0..n).map(|b| b.wrapping_mul(37)).collect();
        assert_eq!(deserialize(&serialize(&bytes)).unwrap(), bytes);
    }
}

#[test]
fn faults_of_base64_are_told() {
    assert_eq!(deserialize("A*==").unwrap_err(), "Invalid symbol 42, offset 1.");
    assert_eq!(deserialize("AAAAA").unwrap_err(), "Invalid input length: 5");
    assert_eq!(deserialize("AB==").unwrap_err(), "Invalid last symbol 66, offset 1.");
    assert_eq!(deserialize("AA").unwrap_err(), "Invalid padding");
    assert_eq!(read_stored(Ok(vec![1, 2])).unwrap(), vec![1, 2]);
    assert_eq!(read_stored(Err(DecodeFault::InvalidPadding)).unwrap_err(), "Invalid padding");
}

#[test]
fn only_rows_are_stored() {
    let mut seed = empty_seed();
    seed.pg_class.push(class(7, "b"));
    seed.pg_class.push(class(5, "a"));
    seed.search_path.push(11);
    let mut turned = seed.clone();
    turned.pg_class.reverse();
    let mut db = PgCatalog::from_seed(seed);
    let other = PgCatalog::from_seed(turned);
    let stored = format!("{:?}", db.to_seed());
    assert_eq!(format!("{:?}", other.to_seed()), stored);
    let oids: Vec<u32> = db.to_seed().pg_class.iter().map(|c| c.oid).collect();
    assert_eq!(oids, vec![5, 7]);
    db.alloc_oid().unwrap();
    assert_eq!(format!("{:?}", db.to_seed()), stored);
    let copy = db.clone();
    assert_eq!(copy.next_oid, db.next_oid);
    assert_eq!(format!("{:?}", copy.to_seed()), stored);
}
