use staff_directory::context::Context;
use staff_directory::date::Date;
use staff_directory::department::{Department, DepartmentBuilder, DepartmentId, DepartmentInfo};
use staff_directory::errors::{ApplicationError, ErrorKind};
use staff_directory::hierarchy::render_hierarchy;
use staff_directory::staff::{Gender, Staff, StaffBuilder, StaffId};

fn builder(name: &str, parent: Option<u32>) -> DepartmentBuilder {
    DepartmentBuilder::new(name.to_string(), parent.map(DepartmentId))
}

fn staff_builder(department: Option<DepartmentId>) -> StaffBuilder {
    StaffBuilder {
        first_name: "Ada".to_string(),
        last_name: "Lovelace".to_string(),
        email: "ada@example.com".to_string(),
        dob: Date::from_ymd(1990, 12, 10).unwrap(),
        doj: Date::from_ymd(2020, 1, 6).unwrap(),
        dot: None,
        gender: Gender::Female,
        department,
        salary: Some(5000),
        active: None,
    }
}

#[test]
fn root_insertions_get_sequential_ids() {
    let mut ctx = Context::new();
    for (i, name) in ["A", "B", "C", "D", "E"].iter().enumerate() {
        let d = ctx.insert_department(builder(name, None)).unwrap();
        assert_eq!(*d.id(), DepartmentId(i as u32));
    }
    assert_eq!(*ctx.next_department_id(), DepartmentId(5));
    let ids: Vec<u32> = ctx.departments().iter().map(|d| d.id().0).collect();
    assert_eq!(ids, vec![0, 1, 2, 3, 4]);
}

#[test]
fn unknown_parent_changes_nothing() {
    let mut ctx = Context::new();
    ctx.insert_department(builder("A", None)).unwrap();
    let before = *ctx.next_department_id();
    let r = ctx.insert_department(builder("B", Some(7)));
    assert!(matches!(r, Err(ApplicationError(ErrorKind::UnknownDepartment))));
    assert_eq!(*ctx.next_department_id(), before);
    assert_eq!(ctx.departments().len(), 1);
    // the identifier that was not used up goes to the next success
    let d = ctx.insert_department(builder("C", Some(0))).unwrap();
    assert_eq!(*d.id(), DepartmentId(1));
}

#[test]
fn builder_defaults_and_explicit_inactive() {
    let b = DepartmentBuilder::new("X".to_string(), None);
    assert_eq!(b.active, Some(true));
    let mut ctx = Context::new();
    let d = ctx
        .insert_department(DepartmentBuilder { name: "Y".to_string(), parent: None, active: None })
        .unwrap();
    assert!(*d.active());
    let d = ctx
        .insert_department(DepartmentBuilder {
            name: "Z".to_string(),
            parent: None,
            active: Some(false),
        })
        .unwrap();
    assert!(!*d.active());
}

#[test]
fn render_two_levels() {
    let mut ctx = Context::new();
    ctx.set_company_name("Acme".to_string());
    ctx.insert_department(builder("Acme", None)).unwrap();
    ctx.insert_department(builder("Widgets", Some(0))).unwrap();
    assert_eq!(
        render_hierarchy(&ctx),
        "Acme\nL Acme department (id: 0)\n  L Widgets department (id: 1)"
    );
}

#[test]
fn children_keep_insertion_order() {
    let mut ctx = Context::new();
    ctx.set_company_name("Co".to_string());
    ctx.insert_department(builder("Parent", None)).unwrap();
    ctx.insert_department(builder("Child2", Some(0))).unwrap();
    ctx.insert_department(builder("Child1", Some(0))).unwrap();
    assert_eq!(
        render_hierarchy(&ctx),
        "Co\nL Parent department (id: 0)\n  L Child2 department (id: 1)\n  L Child1 department (id: 2)"
    );
}

#[test]
fn render_several_roots_and_depths() {
    let mut ctx = Context::new();
    ctx.set_company_name("Co".to_string());
    ctx.insert_department(builder("R1", None)).unwrap();
    ctx.insert_department(builder("R2", None)).unwrap();
    ctx.insert_department(builder("A", Some(0))).unwrap();
    ctx.insert_department(builder("B", Some(2))).unwrap();
    ctx.insert_department(builder("C", Some(1))).unwrap();
    assert_eq!(
        render_hierarchy(&ctx),
        "Co\nL R1 department (id: 0)\n  L A department (id: 2)\n    L B department (id: 3)\nL R2 department (id: 1)\n  L C department (id: 4)"
    );
}

#[test]
fn render_without_departments() {
    let mut ctx = Context::new();
    assert_eq!(render_hierarchy(&ctx), "\n");
    ctx.set_company_name("Acme".to_string());
    assert_eq!(render_hierarchy(&ctx), "Acme\n");
    // rendering changes nothing and repeats
    assert_eq!(render_hierarchy(&ctx), render_hierarchy(&ctx));
}

#[test]
fn info_absent_for_unissued_id() {
    let mut ctx = Context::new();
    ctx.insert_department(builder("A", None)).unwrap();
    ctx.insert_department(builder("B", Some(0))).unwrap();
    assert!(ctx.department_info(&DepartmentId(2)).is_none());
    assert!(ctx.department_info(&DepartmentId(99)).is_none());
    let info = ctx.department_info(&DepartmentId(1)).unwrap();
    assert_eq!(*info.department.name(), "B");
    assert_eq!(info.headcount, 0);
    assert_eq!(info.monthly_expense, 0);
    assert!(ctx.department(&DepartmentId(5)).is_none());
    assert_eq!(*ctx.department(&DepartmentId(0)).unwrap().name(), "A");
}

#[test]
fn info_report_text() {
    let mut ctx = Context::new();
    ctx.insert_department(builder("A", None)).unwrap();
    ctx.insert_department(builder("B", Some(0))).unwrap();
    let info = ctx.department_info(&DepartmentId(1)).unwrap();
    assert_eq!(
        info.report(),
        "Department\nId: 1\nName: B\nParent department: 0\nHead count: 0\nMonthly cost: 0"
    );
    let dep = Department::new(DepartmentId(12), builder("Ops", None));
    let info = DepartmentInfo { department: &dep, headcount: 3, monthly_expense: 18000000000 };
    assert_eq!(
        info.report(),
        "Department\nId: 12\nName: Ops\nParent department: none\nHead count: 3\nMonthly cost: 18000000000"
    );
}

#[test]
fn staff_with_unknown_department_is_stored() {
    let mut ctx = Context::new();
    let s = ctx.insert_staff(staff_builder(Some(DepartmentId(42)))).unwrap();
    assert_eq!(*s.id(), StaffId(0));
    assert_eq!(*s.department(), Some(DepartmentId(42)));
    assert!(*s.active());
    assert_eq!(*ctx.next_staff_id(), StaffId(1));
    assert_eq!(ctx.staff().len(), 1);
    assert_eq!(*ctx.next_department_id(), DepartmentId(0));
}

#[test]
fn staff_ids_are_sequential_and_fields_kept() {
    let mut ctx = Context::new();
    ctx.insert_staff(staff_builder(None)).unwrap();
    let s = ctx.insert_staff(staff_builder(None)).unwrap();
    assert_eq!(*s.id(), StaffId(1));
    assert_eq!(*s.first_name(), "Ada");
    assert_eq!(*s.last_name(), "Lovelace");
    assert_eq!(*s.email(), "ada@example.com");
    assert_eq!(s.dob().year(), 1990);
    assert_eq!(s.doj().month(), 1);
    assert_eq!(*s.dot(), None);
    assert_eq!(*s.gender(), Gender::Female);
    assert_eq!(*s.salary(), Some(5000));
    let direct = Staff::new(StaffId(9), staff_builder(None));
    assert_eq!(*direct.id(), StaffId(9));
}

#[test]
fn rebuilt_store_matches_its_parts() {
    let mut ctx = Context::new();
    ctx.set_company_name("Acme".to_string());
    ctx.insert_department(builder("A", None)).unwrap();
    ctx.insert_department(builder("B", Some(0))).unwrap();
    ctx.insert_staff(staff_builder(Some(DepartmentId(1)))).unwrap();
    let copy = Context::from_parts(
        ctx.company_name().clone(),
        *ctx.next_department_id(),
        *ctx.next_staff_id(),
        ctx.departments().clone(),
        ctx.staff().clone(),
    );
    assert_eq!(copy.company_name(), ctx.company_name());
    assert_eq!(copy.next_department_id(), ctx.next_department_id());
    assert_eq!(copy.next_staff_id(), ctx.next_staff_id());
    assert_eq!(copy.departments().len(), 2);
    assert_eq!(*copy.departments()[1].parent(), Some(DepartmentId(0)));
    assert_eq!(*copy.staff()[0].email(), "ada@example.com");
    assert_eq!(render_hierarchy(&copy), render_hierarchy(&ctx));
    let mut other = Context::new();
    other.replace_with(copy);
    assert_eq!(*other.company_name(), "Acme");
    assert_eq!(*other.next_department_id(), DepartmentId(2));
}

#[test]
fn department_id_conversions() {
    assert_eq!(DepartmentId::from(7u32), DepartmentId(7));
    assert_eq!(u32::from(DepartmentId(9)), 9);
    assert_eq!(DepartmentId::parse("42"), Ok(DepartmentId(42)));
    assert_eq!(DepartmentId::parse("+7"), Ok(DepartmentId(7)));
    assert_eq!(DepartmentId::parse("007"), Ok(DepartmentId(7)));
    assert_eq!(DepartmentId::parse("4294967295"), Ok(DepartmentId(u32::MAX)));
    for bad in ["", "+", "-1", "4294967296", "12a", " 1", "x"] {
        assert_eq!(
            DepartmentId::parse(bad),
            Err(ApplicationError(ErrorKind::UnconvertibleDepartmentId)),
            "{bad:?}"
        );
    }
    let e = DepartmentId::parse("abc").unwrap_err();
    assert_eq!(e.message(), "Input unable to convert to DepartmentId");
}

#[test]
fn one_liner_text() {
    let d = Department::new(DepartmentId(305), builder("Research", Some(2)));
    assert_eq!(d.one_liner(), "Research department (id: 305)");
}

#[test]
fn dates_made_and_parsed() {
    let d = Date::parse("2020-02-29").unwrap();
    assert_eq!((d.year(), d.month(), d.day()), (2020, 2, 29));
    assert_eq!(Date::parse("2021-02-29"), Err(ApplicationError(ErrorKind::InvalidDate)));
    assert_eq!(Date::parse("abc"), Err(ApplicationError(ErrorKind::InvalidDate)));
    assert_eq!(Date::parse("2021/02/01"), Err(ApplicationError(ErrorKind::InvalidDate)));
    assert!(Date::from_ymd(2024, 2, 29).is_some());
    assert!(Date::from_ymd(2023, 2, 29).is_none());
    assert!(Date::from_ymd(2000, 2, 29).is_some());
    assert!(Date::from_ymd(1900, 2, 29).is_none());
    assert!(Date::from_ymd(2023, 13, 1).is_none());
    assert!(Date::from_ymd(2023, 4, 31).is_none());
    assert!(Date::from_ymd(262142, 12, 31).is_some());
    assert!(Date::from_ymd(262143, 1, 1).is_none());
    assert!(Date::from_ymd(-262143, 1, 1).is_some());
    assert!(Date::from_ymd(-262144, 12, 31).is_none());
}

#[test]
fn gender_codes() {
    assert_eq!(Gender::from_code("m"), Ok(Gender::Male));
    assert_eq!(Gender::from_code("f"), Ok(Gender::Female));
    assert_eq!(Gender::from_code("M"), Err(ApplicationError(ErrorKind::InvalidGender)));
    assert_eq!(Gender::from_code(""), Err(ApplicationError(ErrorKind::InvalidGender)));
    assert_eq!(Gender::from_code("mf"), Err(ApplicationError(ErrorKind::InvalidGender)));
}

#[test]
fn error_texts() {
    let e = ApplicationError(ErrorKind::UnknownDepartment);
    assert_eq!(e.kind(), ErrorKind::UnknownDepartment);
    assert_eq!(e.message(), "Unknown department");
    assert_eq!(e.to_text(), "Application Error: Unknown department");
}

#[test]
fn render_a_chain_to_full_depth() {
    let mut ctx = Context::new();
    ctx.set_company_name("Co".to_string());
    ctx.insert_department(builder("A", None)).unwrap();
    ctx.insert_department(builder("B", Some(0))).unwrap();
    ctx.insert_department(builder("C", Some(1))).unwrap();
    ctx.insert_department(builder("D", Some(2))).unwrap();
    assert_eq!(
        render_hierarchy(&ctx),
        "Co\nL A department (id: 0)\n  L B department (id: 1)\n    L C department (id: 2)\n      L D department (id: 3)"
    );
}
