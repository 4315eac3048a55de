//! Staff members: identifiers, gender codes, the builder and the stored record.
use vstd::prelude::*;

use crate::date::Date;
use crate::department::DepartmentId;
use crate::errors::{ApplicationError, ErrorKind};
use crate::text::same_text;

verus! {

/// Identifies a staff member; a namespace apart from department identifiers.
#[derive(Clone, Copy, Debug, PartialEq, Eq, Structural)]
pub struct StaffId(pub u32);

impl From<u32> for StaffId {
    fn from(value: u32) -> (r: StaffId)
        ensures
            r.0 == value,
    {
        StaffId(value)
    }
}

impl vstd::std_specs::convert::FromSpecImpl<u32> for StaffId {
    open spec fn obeys_from_spec() -> bool {
        true
    }

    open spec fn from_spec(v: u32) -> StaffId {
        StaffId(v)
    }
}

impl From<StaffId> for u32 {
    fn from(sid: StaffId) -> (r: u32)
        ensures
            r == sid.0,
    {
        sid.0
    }
}

impl vstd::std_specs::convert::FromSpecImpl<StaffId> for u32 {
    open spec fn obeys_from_spec() -> bool {
        true
    }

    open spec fn from_spec(v: StaffId) -> u32 {
        v.0
    }
}

#[derive(Clone, Copy, Debug, PartialEq, Eq, Structural)]
pub enum Gender {
    Male,
    Female,
}

impl Gender {
    /// Reads a one-letter gender code: `m` or `f`; anything else is an
    /// `InvalidGender` error.
    pub fn from_code(code: &str) -> (r: Result<Gender, ApplicationError>)
        ensures
            code@ == "m"@ ==> r == Ok::<Gender, ApplicationError>(Gender::Male),
            code@ == "f"@ ==> r == Ok::<Gender, ApplicationError>(Gender::Female),
            code@ != "m"@ && code@ != "f"@ ==> r == Err::<Gender, ApplicationError>(
                ApplicationError(ErrorKind::InvalidGender),
            ),
    {
        proof {
            reveal_strlit("m");
            reveal_strlit("f");
            assert("m"@[0] != "f"@[0]);
        }
        if same_text(code, "m") {
            Ok(Gender::Male)
        } else if same_text(code, "f") {
            Ok(Gender::Female)
        } else {
            Err(ApplicationError(ErrorKind::InvalidGender))
        }
    }
}

/// The recipe for a staff member: everything but the identifier.
pub struct StaffBuilder {
    pub first_name: String,
    pub last_name: String,
    pub email: String,
    pub dob: Date,
    pub doj: Date,
    pub dot: Option<Date>,
    pub gender: Gender,
    pub department: Option<DepartmentId>,
    pub salary: Option<u32>,
    pub active: Option<bool>,
}

/// A staff member, as the directory stores it.
#[derive(Clone, Debug)]
pub struct Staff {
    id: StaffId,
    first_name: String,
    last_name: String,
    email: String,
    // date of birth
    dob: Date,
    // date of joining the company
    doj: Date,
    // date of termination
    dot: Option<Date>,
    gender: Gender,
    department: Option<DepartmentId>,
    salary: Option<u32>,
    active: bool,
}

/// What a staff record holds, as plain values.
pub struct StaffView {
    pub id: StaffId,
    pub first_name: Seq<char>,
    pub last_name: Seq<char>,
    pub email: Seq<char>,
    pub dob: Date,
    pub doj: Date,
    pub dot: Option<Date>,
    pub gender: Gender,
    pub department: Option<DepartmentId>,
    pub salary: Option<u32>,
    pub active: bool,
}

impl View for Staff {
    type V = StaffView;

    closed spec fn view(&self) -> StaffView {
        StaffView {
            id: self.id,
            first_name: self.first_name@,
            last_name: self.last_name@,
            email: self.email@,
            dob: self.dob,
            doj: self.doj,
            dot: self.dot,
            gender: self.gender,
            department: self.department,
            salary: self.salary,
            active: self.active,
        }
    }
}

/// The record a builder describes under an identifier; `active` defaults to true.
pub open spec fn staff_from_builder(id: StaffId, b: StaffBuilder) -> StaffView {
    StaffView {
        id,
        first_name: b.first_name@,
        last_name: b.last_name@,
        email: b.email@,
        dob: b.dob,
        doj: b.doj,
        dot: b.dot,
        gender: b.gender,
        department: b.department,
        salary: b.salary,
        active: match b.active {
            Some(a) => a,
            None => true,
        },
    }
}

impl Staff {
    /// Combines an identifier with a builder's fields.
    pub fn new(id: StaffId, builder: StaffBuilder) -> (r: Staff)
        ensures
            r@ == staff_from_builder(id, builder),
    {
        let StaffBuilder {
            first_name,
            last_name,
            email,
            dob,
            doj,
            dot,
            gender,
            department,
            salary,
            active,
        } = builder;
        let active = match active {
            Some(a) => a,
            None => true,
        };
        Staff {
            id,
            first_name,
            last_name,
            email,
            dob,
            doj,
            dot,
            gender,
            department,
            salary,
            active,
        }
    }

    pub fn id(&self) -> (r: &StaffId)
        ensures
            *r == self@.id,
    {
        &self.id
    }

    pub fn first_name(&self) -> (r: &String)
        ensures
            r@ == self@.first_name,
    {
        &self.first_name
    }

    pub fn last_name(&self) -> (r: &String)
        ensures
            r@ == self@.last_name,
    {
        &self.last_name
    }

    pub fn email(&self) -> (r: &String)
        ensures
            r@ == self@.email,
    {
        &self.email
    }

    pub fn dob(&self) -> (r: &Date)
        ensures
            *r == self@.dob,
    {
        &self.dob
    }

    pub fn doj(&self) -> (r: &Date)
        ensures
            *r == self@.doj,
    {
        &self.doj
    }

    pub fn dot(&self) -> (r: &Option<Date>)
        ensures
            *r == self@.dot,
    {
        &self.dot
    }

    pub fn gender(&self) -> (r: &Gender)
        ensures
            *r == self@.gender,
    {
        &self.gender
    }

    pub fn department(&self) -> (r: &Option<DepartmentId>)
        ensures
            *r == self@.department,
    {
        &self.department
    }

    pub fn salary(&self) -> (r: &Option<u32>)
        ensures
            *r == self@.salary,
    {
        &self.salary
    }

    pub fn active(&self) -> (r: &bool)
        ensures
            *r == self@.active,
    {
        &self.active
    }
}

} // verus!
