use staff_directory::context::Context;
use staff_directory::department::{DepartmentBuilder, DepartmentId};
use staff_directory::errors::{ApplicationError, ErrorKind};
use staff_directory::menu_items::{
    choose_action, get_menu_item_from_shortcut, menu_items, menu_line, CreateDepartment,
    ListDepartments, ListStaff, MenuAction, MenuItem, MenuItemInput, MenuItemOutput, NameCompany,
    PrintContext, Quit, ShowDepartment,
};

#[test]
fn name_a_company() {
    let mut ctx = Context::new();
    let name_company = NameCompany::new();

    let compay_name = String::from("MyCompany");
    let _ = name_company.execute(&mut ctx, MenuItemInput::Text(compay_name.clone()));

    assert_eq!(*ctx.company_name(), compay_name);
}

#[test]
fn create_a_department() {
    let mut ctx = Context::new();
    let create_department = CreateDepartment::new();

    let dept1_params =
        MenuItemInput::DepartmentBuilder(DepartmentBuilder::new("Dept1".to_string(), None));
    let _ = create_department.execute(&mut ctx, dept1_params);

    let next_dep_id = ctx.next_department_id();
    let departments = ctx.departments();

    assert_eq!(*next_dep_id, DepartmentId(1));
    assert_eq!(departments.len(), 1);

    let dept1 = &departments[0];
    assert_eq!(*dept1.id(), DepartmentId(0));
    assert_eq!(*dept1.name(), "Dept1".to_string());
    assert_eq!(*dept1.parent(), None);
}

#[test]
fn name_company_rejects_other_input() {
    let mut ctx = Context::new();
    let r = NameCompany::new().execute(&mut ctx, MenuItemInput::Nothing);
    assert!(matches!(r, Err(ApplicationError(ErrorKind::UnrecognizedInput))));
    assert_eq!(*ctx.company_name(), "");
}

#[test]
fn create_department_rejects_unknown_parent() {
    let mut ctx = Context::new();
    let input = MenuItemInput::DepartmentBuilder(DepartmentBuilder::new(
        "Orphan".to_string(),
        Some(DepartmentId(3)),
    ));
    let r = CreateDepartment::new().execute(&mut ctx, input);
    assert!(matches!(r, Err(ApplicationError(ErrorKind::UnknownDepartment))));
    assert_eq!(*ctx.next_department_id(), DepartmentId(0));
}

#[test]
fn list_departments_renders_the_tree() {
    let mut ctx = Context::new();
    ctx.set_company_name("Acme".to_string());
    ctx.insert_department(DepartmentBuilder::new("Acme".to_string(), None)).unwrap();
    ctx.insert_department(DepartmentBuilder::new("Widgets".to_string(), Some(DepartmentId(0))))
        .unwrap();
    match ListDepartments::new().execute(&mut ctx, MenuItemInput::Nothing) {
        Ok(MenuItemOutput::Text(s)) => {
            assert_eq!(s, "Acme\nL Acme department (id: 0)\n  L Widgets department (id: 1)")
        }
        _ => panic!("expected the hierarchy text"),
    }
}

#[test]
fn show_department_outcomes() {
    let mut ctx = Context::new();
    ctx.insert_department(DepartmentBuilder::new("Sales".to_string(), None)).unwrap();
    match ShowDepartment().execute(&mut ctx, MenuItemInput::Text("0".to_string())) {
        Ok(MenuItemOutput::DepartmentInfo(info)) => {
            assert_eq!(*info.department.name(), "Sales");
            assert_eq!(info.headcount, 0);
            assert_eq!(info.monthly_expense, 0);
        }
        _ => panic!("expected department info"),
    }
    let r = ShowDepartment().execute(&mut ctx, MenuItemInput::Text("x".to_string()));
    assert!(matches!(r, Err(ApplicationError(ErrorKind::InvalidNumber))));
    let r = ShowDepartment().execute(&mut ctx, MenuItemInput::Text("5".to_string()));
    assert!(matches!(r, Err(ApplicationError(ErrorKind::InvalidDepartmentId))));
    let r = ShowDepartment().execute(&mut ctx, MenuItemInput::Nothing);
    assert!(matches!(r, Err(ApplicationError(ErrorKind::UnrecognizedInput))));
}

#[test]
fn list_staff_shows_nothing() {
    let mut ctx = Context::new();
    let r = ListStaff().execute(&mut ctx, MenuItemInput::Nothing);
    assert!(matches!(r, Ok(MenuItemOutput::Nothing)));
}

#[test]
fn menu_order_and_debug_entry() {
    let plain = menu_items(false);
    assert_eq!(plain.len(), 9);
    assert_eq!(plain[0], MenuItem::NameCompany(NameCompany::new()));
    assert_eq!(plain[8], MenuItem::Quit(Quit()));
    let debug = menu_items(true);
    assert_eq!(debug.len(), 10);
    assert_eq!(debug[8], MenuItem::PrintContext(PrintContext()));
    assert_eq!(debug[8].shortcut(), None);
}

#[test]
fn menu_line_pads_text_to_forty() {
    let items = menu_items(false);
    assert_eq!(
        menu_line(0, &items[0]),
        format!("1. {:40}[n]", "Name the company")
    );
    assert_eq!(menu_line(0, &items[0]), "1. Name the company                        [n]");
    let debug = menu_items(true);
    assert_eq!(
        menu_line(8, &debug[8]),
        "9. Print application context (debug)       "
    );
}

#[test]
fn shortcut_lookup() {
    let items = menu_items(false);
    assert_eq!(get_menu_item_from_shortcut(&items, "q"), Some(&MenuItem::Quit(Quit())));
    assert_eq!(get_menu_item_from_shortcut(&items, "ld"), Some(&items[1]));
    assert_eq!(get_menu_item_from_shortcut(&items, ""), None);
    assert_eq!(get_menu_item_from_shortcut(&items, "zz"), None);
}

#[test]
fn numeric_choices() {
    let items = menu_items(false);
    assert_eq!(choose_action(&items, "1"), MenuAction::Execute { index: 0, report_errors: true });
    assert_eq!(choose_action(&items, "9"), MenuAction::Execute { index: 8, report_errors: true });
    assert_eq!(choose_action(&items, "0"), MenuAction::InvalidChoice);
    assert_eq!(choose_action(&items, "10"), MenuAction::InvalidChoice);
    assert_eq!(
        choose_action(&items, "a1"),
        MenuAction::Fail(ApplicationError(ErrorKind::InvalidNumber))
    );
}

#[test]
fn key_choices() {
    let items = menu_items(false);
    assert_eq!(choose_action(&items, "cd"), MenuAction::Execute { index: 2, report_errors: false });
    assert_eq!(choose_action(&items, "1a"), MenuAction::InvalidShortcut);
    assert_eq!(choose_action(&items, ""), MenuAction::Ignore);
}
