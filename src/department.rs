//! Departments: their identifiers, their builder and the derived info view.
use vstd::prelude::*;

use crate::errors::{ApplicationError, ErrorKind};
use crate::text::{append_decimal, decimal, parse_decimal, parse_unsigned};

verus! {

/// Identifies a department; issued by the directory, one namespace of its own.
#[derive(Clone, Copy, Debug, PartialEq, Eq, Structural)]
pub struct DepartmentId(pub u32);

impl From<u32> for DepartmentId {
    fn from(value: u32) -> (r: DepartmentId)
        ensures
            r.0 == value,
    {
        DepartmentId(value)
    }
}

impl vstd::std_specs::convert::FromSpecImpl<u32> for DepartmentId {
    open spec fn obeys_from_spec() -> bool {
        true
    }

    open spec fn from_spec(v: u32) -> DepartmentId {
        DepartmentId(v)
    }
}

impl From<DepartmentId> for u32 {
    fn from(did: DepartmentId) -> (r: u32)
        ensures
            r == did.0,
    {
        did.0
    }
}

impl vstd::std_specs::convert::FromSpecImpl<DepartmentId> for u32 {
    open spec fn obeys_from_spec() -> bool {
        true
    }

    open spec fn from_spec(v: DepartmentId) -> u32 {
        v.0
    }
}

impl DepartmentId {
    /// Reads a department identifier from its decimal numeral (an optional
    /// leading `+`, then digits, at most `u32::MAX`); anything else is an
    /// `UnconvertibleDepartmentId` error.
    pub fn parse(value: &str) -> (r: Result<DepartmentId, ApplicationError>)
        ensures
            match parse_unsigned(value@, u32::MAX as nat) {
                Some(v) => r == Ok::<DepartmentId, ApplicationError>(DepartmentId(v as u32)),
                None => r == Err::<DepartmentId, ApplicationError>(
                    ApplicationError(ErrorKind::UnconvertibleDepartmentId),
                ),
            },
    {
        match parse_decimal(value, 0xffff_ffff) {
            Some(v) => Ok(DepartmentId(v as u32)),
            None => Err(ApplicationError(ErrorKind::UnconvertibleDepartmentId)),
        }
    }
}

/// A department of the company, as the directory stores it.
#[derive(Clone, Debug)]
pub struct Department {
    id: DepartmentId,
    name: String,
    parent: Option<DepartmentId>,
    active: bool,
}

/// The recipe for a department: everything but its identifier.
#[derive(Debug)]
pub struct DepartmentBuilder {
    pub name: String,
    pub parent: Option<DepartmentId>,
    pub active: Option<bool>,
}

impl DepartmentBuilder {
    /// A builder for an active department.
    pub fn new(name: String, parent: Option<DepartmentId>) -> (r: DepartmentBuilder)
        ensures
            r.name@ == name@,
            r.parent == parent,
            r.active == Some(true),
    {
        DepartmentBuilder { name, parent, active: Some(true) }
    }
}

/// The summary line of a department: `<name> department (id: <id>)`.
pub open spec fn one_liner_of(name: Seq<char>, id: DepartmentId) -> Seq<char> {
    name + " department (id: "@ + decimal(id.0 as nat) + ")"@
}

/// What a department holds, as plain values.
pub struct DepartmentView {
    pub id: DepartmentId,
    pub name: Seq<char>,
    pub parent: Option<DepartmentId>,
    pub active: bool,
}

impl View for Department {
    type V = DepartmentView;

    closed spec fn view(&self) -> DepartmentView {
        DepartmentView { id: self.id, name: self.name@, parent: self.parent, active: self.active }
    }
}

impl Department {
    /// Combines an identifier with a builder's fields; `active` defaults to true.
    pub fn new(id: DepartmentId, builder: DepartmentBuilder) -> (r: Department)
        ensures
            r@.id == id,
            r@.name == builder.name@,
            r@.parent == builder.parent,
            r@.active == match builder.active {
                Some(a) => a,
                None => true,
            },
    {
        let DepartmentBuilder { name, parent, active } = builder;
        let active = match active {
            Some(a) => a,
            None => true,
        };
        Department { id, name, parent, active }
    }

    pub fn id(&self) -> (r: &DepartmentId)
        ensures
            *r == self@.id,
    {
        &self.id
    }

    pub fn name(&self) -> (r: &String)
        ensures
            r@ == self@.name,
    {
        &self.name
    }

    pub fn parent(&self) -> (r: &Option<DepartmentId>)
        ensures
            *r == self@.parent,
    {
        &self.parent
    }

    pub fn active(&self) -> (r: &bool)
        ensures
            *r == self@.active,
    {
        &self.active
    }

    /// The one-line summary, `<name> department (id: <id>)`.
    pub fn one_liner(&self) -> (r: String)
        ensures
            r@ == one_liner_of(self@.name, self@.id),
    {
        let mut s = self.name.clone();
        s.append(" department (id: ");
        append_decimal(&mut s, self.id.0 as u64);
        s.append(")");
        s
    }
}

/// The text of a department's info card.
pub open spec fn info_text(d: DepartmentView, headcount: nat, monthly_expense: nat) -> Seq<char> {
    "Department\nId: "@ + decimal(d.id.0 as nat) + "\nName: "@ + d.name + "\nParent department: "@
        + match d.parent {
        Some(p) => decimal(p.0 as nat),
        None => "none"@,
    } + "\nHead count: "@ + decimal(headcount) + "\nMonthly cost: "@ + decimal(monthly_expense)
}

/// A department together with figures derived from the directory for display.
#[derive(Debug)]
pub struct DepartmentInfo<'a> {
    pub department: &'a Department,
    pub headcount: u32,
    pub monthly_expense: u64,
}

impl<'a> DepartmentInfo<'a> {
    /// The info card: id, name, parent (or `none`), head count and monthly cost,
    /// one per line under a `Department` heading.
    pub fn report(&self) -> (r: String)
        ensures
            r@ == info_text(
                self.department@,
                self.headcount as nat,
                self.monthly_expense as nat,
            ),
    {
        let mut s = String::from_str("Department\nId: ");
        append_decimal(&mut s, self.department.id().0 as u64);
        s.append("\nName: ");
        s.append(self.department.name().as_str());
        s.append("\nParent department: ");
        match self.department.parent() {
            Some(p) => append_decimal(&mut s, p.0 as u64),
            None => s.append("none"),
        }
        s.append("\nHead count: ");
        append_decimal(&mut s, self.headcount as u64);
        s.append("\nMonthly cost: ");
        append_decimal(&mut s, self.monthly_expense);
        s
    }
}

} // verus!
