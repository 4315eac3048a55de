//! The menu: its commands, what each one shows, and the commands that act on
//! the directory, with the choice of a command from a line of input.
use vstd::prelude::*;

use crate::context::{Context, ContextView, first_with_id, parent_known};
use crate::department::{Department, DepartmentBuilder, DepartmentId, DepartmentInfo};
use crate::errors::{ApplicationError, ErrorKind};
use crate::hierarchy::{hierarchy_text, render_hierarchy};
use crate::staff::{Staff, StaffBuilder, staff_from_builder};
use crate::text::{
    append_decimal,
    append_padded,
    decimal,
    pad_right,
    parse_decimal,
    parse_unsigned,
    same_text,
};

verus! {

/// What a command is handed.
pub enum MenuItemInput {
    Text(String),
    DepartmentBuilder(DepartmentBuilder),
    StaffBuilder(StaffBuilder),
    Nothing,
}

/// What a command hands back.
pub enum MenuItemOutput<'a> {
    Text(String),
    Department(&'a Department),
    Staff(&'a Staff),
    DepartmentInfo(DepartmentInfo<'a>),
    Nothing,
}

/// Names the company.
#[derive(Clone, Copy, Debug, PartialEq, Eq, Structural)]
pub struct NameCompany();

/// Lists the department hierarchy.
#[derive(Clone, Copy, Debug, PartialEq, Eq, Structural)]
pub struct ListDepartments();

/// Creates a department.
#[derive(Clone, Copy, Debug, PartialEq, Eq, Structural)]
pub struct CreateDepartment();

/// Shows one department's information.
#[derive(Clone, Copy, Debug, PartialEq, Eq, Structural)]
pub struct ShowDepartment();

/// Lists the staff.
#[derive(Clone, Copy, Debug, PartialEq, Eq, Structural)]
pub struct ListStaff();

/// Creates a staff member.
#[derive(Clone, Copy, Debug, PartialEq, Eq, Structural)]
pub struct CreateStaff();

/// Prints the whole directory state, for debugging.
#[derive(Clone, Copy, Debug, PartialEq, Eq, Structural)]
pub struct PrintContext();

/// Saves the directory to a file.
#[derive(Clone, Copy, Debug, PartialEq, Eq, Structural)]
pub struct SaveContext();

/// Loads the directory from a file.
#[derive(Clone, Copy, Debug, PartialEq, Eq, Structural)]
pub struct LoadContext();

/// Leaves the program.
#[derive(Clone, Copy, Debug, PartialEq, Eq, Structural)]
pub struct Quit();

impl NameCompany {
    pub fn new() -> (r: NameCompany)
        ensures
            r == NameCompany(),
    {
        NameCompany()
    }

    /// Sets the company name to the input text; any other input is an
    /// `UnrecognizedInput` error that changes nothing.
    pub fn execute<'a>(&self, ctx: &'a mut Context, input: MenuItemInput) -> (r: Result<
        MenuItemOutput<'a>,
        ApplicationError,
    >)
        ensures
            match input {
                MenuItemInput::Text(name) => {
                    &&& final(ctx)@ == (ContextView { company_name: name@, ..old(ctx)@ })
                    &&& r matches Ok(MenuItemOutput::Nothing)
                },
                _ => {
                    &&& final(ctx)@ == old(ctx)@
                    &&& r == Err::<MenuItemOutput, ApplicationError>(
                        ApplicationError(ErrorKind::UnrecognizedInput),
                    )
                },
            },
    {
        match input {
            MenuItemInput::Text(name) => {
                ctx.set_company_name(name);
                Ok(MenuItemOutput::Nothing)
            },
            _ => Err(ApplicationError(ErrorKind::UnrecognizedInput)),
        }
    }
}

impl ListDepartments {
    pub fn new() -> (r: ListDepartments)
        ensures
            r == ListDepartments(),
    {
        ListDepartments()
    }

    /// The hierarchy report of the directory, whatever the input; nothing
    /// changes.
    pub fn execute<'a>(&self, ctx: &'a mut Context, _input: MenuItemInput) -> (r: Result<
        MenuItemOutput<'a>,
        ApplicationError,
    >)
        ensures
            final(ctx)@ == old(ctx)@,
            r matches Ok(MenuItemOutput::Text(s)) && s@ == hierarchy_text(old(ctx)@),
    {
        Ok(MenuItemOutput::Text(render_hierarchy(ctx)))
    }
}

impl CreateDepartment {
    pub fn new() -> (r: CreateDepartment)
        ensures
            r == CreateDepartment(),
    {
        CreateDepartment()
    }

    /// Inserts the department that the input builder describes and hands it
    /// back; see `Context::insert_department`. Any other input is an
    /// `UnrecognizedInput` error that changes nothing.
    pub fn execute<'a>(&self, ctx: &'a mut Context, input: MenuItemInput) -> (r: Result<
        MenuItemOutput<'a>,
        ApplicationError,
    >)
        requires
            input matches MenuItemInput::DepartmentBuilder(b) && parent_known(
                old(ctx)@.departments,
                b.parent,
            ) ==> old(ctx)@.next_department_id.0 < u32::MAX,
        ensures
            match input {
                MenuItemInput::DepartmentBuilder(b) => if parent_known(
                    old(ctx)@.departments,
                    b.parent,
                ) {
                    &&& final(ctx)@ == old(ctx)@.with_department(b.name@, b.parent, b.active)
                    &&& r matches Ok(MenuItemOutput::Department(d)) && d@
                        == final(ctx)@.departments.last()
                } else {
                    &&& final(ctx)@ == old(ctx)@
                    &&& r == Err::<MenuItemOutput, ApplicationError>(
                        ApplicationError(ErrorKind::UnknownDepartment),
                    )
                },
                _ => {
                    &&& final(ctx)@ == old(ctx)@
                    &&& r == Err::<MenuItemOutput, ApplicationError>(
                        ApplicationError(ErrorKind::UnrecognizedInput),
                    )
                },
            },
            old(ctx)@.wf() ==> final(ctx)@.wf(),
    {
        match input {
            MenuItemInput::DepartmentBuilder(builder) => match ctx.insert_department(builder) {
                Ok(d) => Ok(MenuItemOutput::Department(d)),
                Err(e) => Err(e),
            },
            _ => Err(ApplicationError(ErrorKind::UnrecognizedInput)),
        }
    }
}

impl ShowDepartment {
    /// The info of the department whose identifier the input text holds. A
    /// text that is no identifier is an `InvalidNumber` error, an identifier
    /// of no department an `InvalidDepartmentId` error, and any other input
    /// an `UnrecognizedInput` error. Nothing changes.
    pub fn execute<'a>(&self, ctx: &'a mut Context, input: MenuItemInput) -> (r: Result<
        MenuItemOutput<'a>,
        ApplicationError,
    >)
        ensures
            final(ctx)@ == old(ctx)@,
            match input {
                MenuItemInput::Text(s) => match parse_unsigned(s@, u32::MAX as nat) {
                    Some(v) => match first_with_id(old(ctx)@.departments, DepartmentId(v as u32)) {
                        Some(d) => r matches Ok(MenuItemOutput::DepartmentInfo(info))
                            && info.department@ == d && info.headcount == 0
                            && info.monthly_expense == 0,
                        None => r == Err::<MenuItemOutput, ApplicationError>(
                            ApplicationError(ErrorKind::InvalidDepartmentId),
                        ),
                    },
                    None => r == Err::<MenuItemOutput, ApplicationError>(
                        ApplicationError(ErrorKind::InvalidNumber),
                    ),
                },
                _ => r == Err::<MenuItemOutput, ApplicationError>(
                    ApplicationError(ErrorKind::UnrecognizedInput),
                ),
            },
    {
        let ctx: &'a Context = ctx;
        match input {
            MenuItemInput::Text(s) => {
                let id = match parse_decimal(s.as_str(), 0xffff_ffff) {
                    Some(v) => DepartmentId(v as u32),
                    None => return Err(ApplicationError(ErrorKind::InvalidNumber)),
                };
                match ctx.department_info(&id) {
                    Some(info) => Ok(MenuItemOutput::DepartmentInfo(info)),
                    None => Err(ApplicationError(ErrorKind::InvalidDepartmentId)),
                }
            },
            _ => Err(ApplicationError(ErrorKind::UnrecognizedInput)),
        }
    }
}

impl ListStaff {
    /// Staff listing is not offered yet: nothing is shown and nothing changes.
    pub fn execute<'a>(&self, ctx: &'a mut Context, _input: MenuItemInput) -> (r: Result<
        MenuItemOutput<'a>,
        ApplicationError,
    >)
        ensures
            final(ctx)@ == old(ctx)@,
            r matches Ok(MenuItemOutput::Nothing),
    {
        Ok(MenuItemOutput::Nothing)
    }
}

impl CreateStaff {
    /// Inserts the staff member that the input builder describes and hands it
    /// back; see `Context::insert_staff`. Any other input is an
    /// `UnrecognizedInput` error that changes nothing.
    pub fn execute<'a>(&self, ctx: &'a mut Context, input: MenuItemInput) -> (r: Result<
        MenuItemOutput<'a>,
        ApplicationError,
    >)
        requires
            input is StaffBuilder ==> old(ctx)@.next_staff_id.0 < u32::MAX,
        ensures
            match input {
                MenuItemInput::StaffBuilder(b) => {
                    &&& final(ctx)@ == old(ctx)@.with_staff(
                        staff_from_builder(old(ctx)@.next_staff_id, b),
                    )
                    &&& r matches Ok(MenuItemOutput::Staff(s)) && s@ == staff_from_builder(
                        old(ctx)@.next_staff_id,
                        b,
                    )
                },
                _ => {
                    &&& final(ctx)@ == old(ctx)@
                    &&& r == Err::<MenuItemOutput, ApplicationError>(
                        ApplicationError(ErrorKind::UnrecognizedInput),
                    )
                },
            },
            old(ctx)@.wf() ==> final(ctx)@.wf(),
    {
        match input {
            MenuItemInput::StaffBuilder(builder) => match ctx.insert_staff(builder) {
                Ok(s) => Ok(MenuItemOutput::Staff(s)),
                Err(e) => Err(e),
            },
            _ => Err(ApplicationError(ErrorKind::UnrecognizedInput)),
        }
    }
}

/// One entry of the menu, tagged by its command.
#[derive(Clone, Copy, Debug, PartialEq, Eq, Structural)]
pub enum MenuItem {
    NameCompany(NameCompany),
    ListDepartments(ListDepartments),
    CreateDepartment(CreateDepartment),
    ShowDepartment(ShowDepartment),
    ListStaff(ListStaff),
    CreateStaff(CreateStaff),
    SaveContext(SaveContext),
    LoadContext(LoadContext),
    PrintContext(PrintContext),
    Quit(Quit),
}

impl MenuItem {
    /// The text a menu entry shows.
    pub open spec fn spec_text(self) -> Seq<char> {
        match self {
            MenuItem::NameCompany(_) => "Name the company"@,
            MenuItem::ListDepartments(_) => "List department hierarchy"@,
            MenuItem::CreateDepartment(_) => "Create a new department"@,
            MenuItem::ShowDepartment(_) => "Show department information"@,
            MenuItem::ListStaff(_) => "List all staff"@,
            MenuItem::CreateStaff(_) => "Create a new staff"@,
            MenuItem::SaveContext(_) => "Save to a file"@,
            MenuItem::LoadContext(_) => "Load from a file"@,
            MenuItem::PrintContext(_) => "Print application context (debug)"@,
            MenuItem::Quit(_) => "Quit"@,
        }
    }

    /// The key that selects a menu entry, where it has one.
    pub open spec fn spec_shortcut(self) -> Option<Seq<char>> {
        match self {
            MenuItem::NameCompany(_) => Some("n"@),
            MenuItem::ListDepartments(_) => Some("ld"@),
            MenuItem::CreateDepartment(_) => Some("cd"@),
            MenuItem::ShowDepartment(_) => Some("rd"@),
            MenuItem::ListStaff(_) => Some("ls"@),
            MenuItem::CreateStaff(_) => Some("cs"@),
            MenuItem::SaveContext(_) => Some("s"@),
            MenuItem::LoadContext(_) => Some("l"@),
            MenuItem::PrintContext(_) => None,
            MenuItem::Quit(_) => Some("q"@),
        }
    }

    pub fn menuitem_txt(&self) -> (r: &'static str)
        ensures
            r@ == self.spec_text(),
    {
        match self {
            MenuItem::NameCompany(_) => "Name the company",
            MenuItem::ListDepartments(_) => "List department hierarchy",
            MenuItem::CreateDepartment(_) => "Create a new department",
            MenuItem::ShowDepartment(_) => "Show department information",
            MenuItem::ListStaff(_) => "List all staff",
            MenuItem::CreateStaff(_) => "Create a new staff",
            MenuItem::SaveContext(_) => "Save to a file",
            MenuItem::LoadContext(_) => "Load from a file",
            MenuItem::PrintContext(_) => "Print application context (debug)",
            MenuItem::Quit(_) => "Quit",
        }
    }

    pub fn shortcut(&self) -> (r: Option<&'static str>)
        ensures
            match r {
                Some(k) => self.spec_shortcut() == Some(k@),
                None => self.spec_shortcut() is None,
            },
    {
        match self {
            MenuItem::NameCompany(_) => Some("n"),
            MenuItem::ListDepartments(_) => Some("ld"),
            MenuItem::CreateDepartment(_) => Some("cd"),
            MenuItem::ShowDepartment(_) => Some("rd"),
            MenuItem::ListStaff(_) => Some("ls"),
            MenuItem::CreateStaff(_) => Some("cs"),
            MenuItem::SaveContext(_) => Some("s"),
            MenuItem::LoadContext(_) => Some("l"),
            MenuItem::PrintContext(_) => None,
            MenuItem::Quit(_) => Some("q"),
        }
    }
}

/// The menu in display order; the debug dump is offered only in debug mode,
/// just before `Quit`.
pub open spec fn menu_spec(debug: bool) -> Seq<MenuItem> {
    seq![
        MenuItem::NameCompany(NameCompany()),
        MenuItem::ListDepartments(ListDepartments()),
        MenuItem::CreateDepartment(CreateDepartment()),
        MenuItem::ShowDepartment(ShowDepartment()),
        MenuItem::ListStaff(ListStaff()),
        MenuItem::CreateStaff(CreateStaff()),
        MenuItem::SaveContext(SaveContext()),
        MenuItem::LoadContext(LoadContext()),
    ] + (if debug {
        seq![MenuItem::PrintContext(PrintContext())]
    } else {
        Seq::empty()
    }) + seq![MenuItem::Quit(Quit())]
}

/// The menu entries in display order.
pub fn menu_items(debug: bool) -> (r: Vec<MenuItem>)
    ensures
        r@ == menu_spec(debug),
{
    let mut items: Vec<MenuItem> = Vec::new();
    items.push(MenuItem::NameCompany(NameCompany::new()));
    items.push(MenuItem::ListDepartments(ListDepartments::new()));
    items.push(MenuItem::CreateDepartment(CreateDepartment::new()));
    items.push(MenuItem::ShowDepartment(ShowDepartment()));
    items.push(MenuItem::ListStaff(ListStaff()));
    items.push(MenuItem::CreateStaff(CreateStaff()));
    items.push(MenuItem::SaveContext(SaveContext()));
    items.push(MenuItem::LoadContext(LoadContext()));
    if debug {
        items.push(MenuItem::PrintContext(PrintContext()));
    }
    items.push(MenuItem::Quit(Quit()));
    proof {
        assert(items@ =~= menu_spec(debug));
    }
    items
}

/// A menu line: the entry's number, a dot, its text padded to 40 characters,
/// then its shortcut in brackets, if it has one.
pub open spec fn menu_line_text(number: nat, m: MenuItem) -> Seq<char> {
    decimal(number) + ". "@ + pad_right(m.spec_text(), 40) + match m.spec_shortcut() {
        Some(k) => "["@ + k + "]"@,
        None => Seq::empty(),
    }
}

/// The menu line of the entry at `index`, which is shown numbered from 1.
pub fn menu_line(index: usize, item: &MenuItem) -> (r: String)
    requires
        index < usize::MAX,
    ensures
        r@ == menu_line_text((index + 1) as nat, *item),
{
    let mut s = String::new();
    append_decimal(&mut s, (index + 1) as u64);
    s.append(". ");
    append_padded(&mut s, item.menuitem_txt(), 40);
    match item.shortcut() {
        Some(k) => {
            s.append("[");
            s.append(k);
            s.append("]");
        },
        None => {},
    }
    s
}

/// The key of an entry, or the empty text where it has none.
pub open spec fn shortcut_text(m: MenuItem) -> Seq<char> {
    match m.spec_shortcut() {
        Some(k) => k,
        None => Seq::empty(),
    }
}

/// Entry `i` is the first whose key is `key`.
pub open spec fn first_with_shortcut(items: Seq<MenuItem>, key: Seq<char>, i: int) -> bool {
    &&& 0 <= i < items.len()
    &&& shortcut_text(items[i]) == key
    &&& forall|j: int| 0 <= j < i ==> shortcut_text(#[trigger] items[j]) != key
}

/// No entry has `key` as its key.
pub open spec fn no_shortcut(items: Seq<MenuItem>, key: Seq<char>) -> bool {
    forall|j: int| 0 <= j < items.len() ==> shortcut_text(#[trigger] items[j]) != key
}

/// The position of the first entry whose key is `key`.
fn shortcut_position(menu_items: &[MenuItem], key: &str) -> (r: Option<usize>)
    ensures
        match r {
            Some(i) => first_with_shortcut(menu_items@, key@, i as int),
            None => no_shortcut(menu_items@, key@),
        },
{
    let mut i: usize = 0;
    while i < menu_items.len()
        invariant
            i <= menu_items@.len(),
            forall|j: int| 0 <= j < i ==> shortcut_text(#[trigger] menu_items@[j]) != key@,
        decreases menu_items.len() - i,
    {
        let item = &menu_items[i];
        let k = match item.shortcut() {
            Some(k) => k,
            None => {
                proof {
                    reveal_strlit("");
                }
                ""
            },
        };
        assert(k@ == shortcut_text(menu_items@[i as int]));
        if same_text(k, key) {
            return Some(i);
        }
        i += 1;
    }
    None
}

/// The first entry whose key is `shortcut`; an empty shortcut selects nothing.
pub fn get_menu_item_from_shortcut<'a>(menu_items: &'a [MenuItem], shortcut: &str) -> (r: Option<
    &'a MenuItem,
>)
    ensures
        shortcut@.len() == 0 ==> r is None,
        shortcut@.len() > 0 ==> match r {
            Some(m) => exists|i: int|
                first_with_shortcut(menu_items@, shortcut@, i) && menu_items@[i] == *m,
            None => no_shortcut(menu_items@, shortcut@),
        },
{
    if shortcut.unicode_len() == 0 {
        return None;
    }
    match shortcut_position(menu_items, shortcut) {
        Some(i) => Some(&menu_items[i]),
        None => None,
    }
}

/// What the menu loop does with a line of input.
#[derive(Clone, Copy, Debug, PartialEq, Eq, Structural)]
pub enum MenuAction {
    /// Runs the entry at `index`; errors it reports are shown only when
    /// `report_errors` holds.
    Execute { index: usize, report_errors: bool },
    /// A number that selects no entry.
    InvalidChoice,
    /// A key that selects no entry.
    InvalidShortcut,
    /// An empty line: the menu is shown again.
    Ignore,
    /// The loop ends with this error.
    Fail(ApplicationError),
}

/// The pattern of a line that the menu reads as an entry number: it ends in
/// decimal digits.
pub const DIGITS_AT_END: &'static str = r"\d+$";

/// Whether a regular expression matches somewhere in a text, as the regex
/// crate decides it; `None` where the pattern does not compile.
pub uninterp spec fn regex_match(pattern: Seq<char>, haystack: Seq<char>) -> Option<bool>;

/// Relies on regex's `Regex::new` and `Regex::is_match`: compiles the pattern
/// and tells whether it matches somewhere in the text.
#[verifier::external_body]
fn pattern_matches(pattern: &str, haystack: &str) -> (r: Option<bool>)
    ensures
        r == regex_match(pattern@, haystack@),
{
    match regex::Regex::new(pattern) {
        Ok(re) => Some(re.is_match(haystack)),
        Err(_) => None,
    }
}

/// Whether `r` is what the menu loop does with `input`, given whether it
/// ends in digits. A line that ends in digits must be a number (else the loop
/// fails with `InvalidNumber`); numbers 1 to N pick an entry, with its errors
/// shown, other numbers are an invalid choice. Any other non-empty line is a
/// key: the first entry with that key runs, its errors unshown, or the key is
/// invalid. An empty line is ignored.
pub open spec fn action_meets(
    menu_items: Seq<MenuItem>,
    input: Seq<char>,
    ends_in_digits: bool,
    r: MenuAction,
) -> bool {
    if ends_in_digits {
        match parse_unsigned(input, usize::MAX as nat) {
            Some(n) => if 1 <= n <= menu_items.len() {
                r == (MenuAction::Execute { index: (n - 1) as usize, report_errors: true })
            } else {
                r == MenuAction::InvalidChoice
            },
            None => r == MenuAction::Fail(ApplicationError(ErrorKind::InvalidNumber)),
        }
    } else if input.len() == 0 {
        r == MenuAction::Ignore
    } else {
        match r {
            MenuAction::Execute { index, report_errors } => !report_errors && first_with_shortcut(
                menu_items,
                input,
                index as int,
            ),
            MenuAction::InvalidShortcut => no_shortcut(menu_items, input),
            _ => false,
        }
    }
}

/// What a line of input asks for, given whether it ends in digits; see
/// `action_meets`.
pub fn action_for(menu_items: &[MenuItem], input: &str, ends_in_digits: bool) -> (r: MenuAction)
    ensures
        action_meets(menu_items@, input@, ends_in_digits, r),
{
    if ends_in_digits {
        match parse_decimal(input, usize::MAX as u64) {
            Some(n) => {
                if n >= 1 && n - 1 < menu_items.len() as u64 {
                    MenuAction::Execute { index: (n - 1) as usize, report_errors: true }
                } else {
                    MenuAction::InvalidChoice
                }
            },
            None => MenuAction::Fail(ApplicationError(ErrorKind::InvalidNumber)),
        }
    } else if input.unicode_len() > 0 {
        match shortcut_position(menu_items, input) {
            Some(i) => MenuAction::Execute { index: i, report_errors: false },
            None => MenuAction::InvalidShortcut,
        }
    } else {
        MenuAction::Ignore
    }
}

/// What a line of input asks for: `action_for`, once the regex crate has
/// told whether the line ends in digits; a pattern that fails to compile
/// ends the loop with `InvalidPattern`.
pub fn choose_action(menu_items: &[MenuItem], input: &str) -> (r: MenuAction)
    ensures
        match regex_match(DIGITS_AT_END@, input@) {
            Some(b) => action_meets(menu_items@, input@, b, r),
            None => r == MenuAction::Fail(ApplicationError(ErrorKind::InvalidPattern)),
        },
{
    match pattern_matches(DIGITS_AT_END, input) {
        Some(b) => action_for(menu_items, input, b),
        None => MenuAction::Fail(ApplicationError(ErrorKind::InvalidPattern)),
    }
}

} // verus!
