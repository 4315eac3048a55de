//! The directory store: the company name, both identifier counters and the
//! ordered departments and staff, changed only through its own operations.
use vstd::prelude::*;

use crate::department::{Department, DepartmentBuilder, DepartmentId, DepartmentInfo, DepartmentView};
use crate::errors::{ApplicationError, ErrorKind};
use crate::staff::{Staff, StaffBuilder, StaffId, StaffView, staff_from_builder};

verus! {

/// The departments of a sequence, as plain values.
pub open spec fn department_views(deps: Seq<Department>) -> Seq<DepartmentView> {
    deps.map_values(|d: Department| d@)
}

/// The staff records of a sequence, as plain values.
pub open spec fn staff_views(staff: Seq<Staff>) -> Seq<StaffView> {
    staff.map_values(|s: Staff| s@)
}

/// Whether some department carries identifier `id`.
pub open spec fn has_department(deps: Seq<DepartmentView>, id: DepartmentId) -> bool {
    exists|i: int| 0 <= i < deps.len() && (#[trigger] deps[i]).id == id
}

/// The first department carrying identifier `id`, if any.
pub open spec fn first_with_id(deps: Seq<DepartmentView>, id: DepartmentId) -> Option<DepartmentView>
    decreases deps.len(),
{
    if deps.len() == 0 {
        None
    } else if deps[0].id == id {
        Some(deps[0])
    } else {
        first_with_id(deps.drop_first(), id)
    }
}

/// A parent reference is acceptable when it is absent or names a department.
pub open spec fn parent_known(deps: Seq<DepartmentView>, parent: Option<DepartmentId>) -> bool {
    match parent {
        Some(p) => has_department(deps, p),
        None => true,
    }
}

/// The whole directory, as plain values.
pub struct ContextView {
    pub company_name: Seq<char>,
    pub next_department_id: DepartmentId,
    pub next_staff_id: StaffId,
    pub departments: Seq<DepartmentView>,
    pub staff: Seq<StaffView>,
}

impl ContextView {
    /// A fresh directory: no name, both counters at zero, nothing stored.
    pub open spec fn empty() -> ContextView {
        ContextView {
            company_name: Seq::empty(),
            next_department_id: DepartmentId(0),
            next_staff_id: StaffId(0),
            departments: Seq::empty(),
            staff: Seq::empty(),
        }
    }

    /// The directory after a department is stored under the next identifier.
    pub open spec fn with_department(
        self,
        name: Seq<char>,
        parent: Option<DepartmentId>,
        active: Option<bool>,
    ) -> ContextView {
        ContextView {
            departments: self.departments.push(
                DepartmentView {
                    id: self.next_department_id,
                    name,
                    parent,
                    active: match active {
                        Some(a) => a,
                        None => true,
                    },
                },
            ),
            next_department_id: DepartmentId((self.next_department_id.0 + 1) as u32),
            ..self
        }
    }

    /// The directory after a staff record is stored under the next identifier.
    pub open spec fn with_staff(self, record: StaffView) -> ContextView {
        ContextView {
            staff: self.staff.push(record),
            next_staff_id: StaffId((self.next_staff_id.0 + 1) as u32),
            ..self
        }
    }

    /// What insertion keeps true: identifiers strictly increase in insertion
    /// order and stay below their counter, and each parent is a department
    /// stored earlier, so that the parent links form no cycle.
    pub open spec fn wf(self) -> bool {
        &&& forall|i: int|
            0 <= i < self.departments.len() ==> (#[trigger] self.departments[i]).id.0
                < self.next_department_id.0
        &&& forall|i: int, j: int|
            0 <= i < j < self.departments.len() ==> (#[trigger] self.departments[i]).id.0
                < (#[trigger] self.departments[j]).id.0
        &&& forall|i: int|
            0 <= i < self.departments.len() && (#[trigger] self.departments[i]).parent is Some
                ==> exists|j: int|
                0 <= j < i && (#[trigger] self.departments[j]).id
                    == self.departments[i].parent->0
        &&& forall|i: int|
            0 <= i < self.staff.len() ==> (#[trigger] self.staff[i]).id.0 < self.next_staff_id.0
        &&& forall|i: int, j: int|
            0 <= i < j < self.staff.len() ==> (#[trigger] self.staff[i]).id.0
                < (#[trigger] self.staff[j]).id.0
    }
}

/// Departments inserted one after another without a parent, one for each
/// entry of a name and an `active` flag, in order.
pub open spec fn insert_roots(
    c: ContextView,
    entries: Seq<(Seq<char>, Option<bool>)>,
) -> ContextView
    decreases entries.len(),
{
    if entries.len() == 0 {
        c
    } else {
        insert_roots(c, entries.drop_last()).with_department(
            entries.last().0,
            None,
            entries.last().1,
        )
    }
}

/// `first_with_id` finds a department exactly when one carries the identifier.
pub proof fn lemma_first_with_id_found(deps: Seq<DepartmentView>, id: DepartmentId)
    ensures
        first_with_id(deps, id) is Some <==> has_department(deps, id),
        first_with_id(deps, id) matches Some(d) ==> d.id == id,
    decreases deps.len(),
{
    if deps.len() > 0 {
        lemma_first_with_id_found(deps.drop_first(), id);
        if has_department(deps, id) && deps[0].id != id {
            let i = choose|i: int| 0 <= i < deps.len() && (#[trigger] deps[i]).id == id;
            assert(deps.drop_first()[i - 1] == deps[i]);
        }
        if has_department(deps.drop_first(), id) {
            let i = choose|i: int|
                0 <= i < deps.drop_first().len() && (#[trigger] deps.drop_first()[i]).id == id;
            assert(deps[i + 1] == deps.drop_first()[i]);
        }
    }
}

/// In a well-formed directory an identifier at or past the counter was never
/// issued: no department carries it, a lookup of it finds nothing, and a
/// department that names it as parent is refused.
pub proof fn lemma_unissued_department_id(c: ContextView, id: DepartmentId)
    requires
        c.wf(),
        id.0 >= c.next_department_id.0,
    ensures
        !has_department(c.departments, id),
        first_with_id(c.departments, id) is None,
        !parent_known(c.departments, Some(id)),
{
    lemma_first_with_id_found(c.departments, id);
    if has_department(c.departments, id) {
        let i = choose|i: int| 0 <= i < c.departments.len() && (#[trigger] c.departments[i]).id == id;
        assert(c.departments[i].id.0 < c.next_department_id.0);
    }
}

/// From a fresh directory, N insertions of departments without a parent give
/// them the identifiers 0, 1, ..., N-1 in insertion order and leave the
/// department counter at N.
pub proof fn lemma_sequential_department_ids(entries: Seq<(Seq<char>, Option<bool>)>)
    requires
        entries.len() < u32::MAX,
    ensures
        insert_roots(ContextView::empty(), entries).next_department_id.0 == entries.len(),
        insert_roots(ContextView::empty(), entries).departments.len() == entries.len(),
        forall|i: int|
            0 <= i < entries.len() ==> {
                let d = #[trigger] insert_roots(ContextView::empty(), entries).departments[i];
                &&& d.id.0 == i
                &&& d.name == entries[i].0
                &&& d.parent is None
            },
    decreases entries.len(),
{
    if entries.len() > 0 {
        let prefix = entries.drop_last();
        lemma_sequential_department_ids(prefix);
        let before = insert_roots(ContextView::empty(), prefix);
        let after = insert_roots(ContextView::empty(), entries);
        assert forall|i: int| 0 <= i < entries.len() implies {
            let d = #[trigger] after.departments[i];
            &&& d.id.0 == i
            &&& d.name == entries[i].0
            &&& d.parent is None
        } by {
            if i < prefix.len() {
                assert(after.departments[i] == before.departments[i]);
                assert(prefix[i] == entries[i]);
            }
        }
    }
}

/// Rebuilding a directory from everything it exposes (its name, both
/// counters and both ordered sequences) gives back the same directory, as a
/// snapshot restore does.
pub proof fn lemma_rebuild_from_parts(
    c: ContextView,
    company_name: Seq<char>,
    next_department_id: DepartmentId,
    next_staff_id: StaffId,
    departments: Seq<Department>,
    staff: Seq<Staff>,
)
    requires
        company_name == c.company_name,
        next_department_id == c.next_department_id,
        next_staff_id == c.next_staff_id,
        department_views(departments) == c.departments,
        staff_views(staff) == c.staff,
    ensures
        (ContextView {
            company_name,
            next_department_id,
            next_staff_id,
            departments: department_views(departments),
            staff: staff_views(staff),
        }) == c,
{
}

/// The directory store.
#[derive(Clone, Debug)]
pub struct Context {
    company_name: String,
    next_department_id: DepartmentId,
    next_staff_id: StaffId,
    departments: Vec<Department>,
    staff: Vec<Staff>,
}

impl View for Context {
    type V = ContextView;

    closed spec fn view(&self) -> ContextView {
        ContextView {
            company_name: self.company_name@,
            next_department_id: self.next_department_id,
            next_staff_id: self.next_staff_id,
            departments: department_views(self.departments@),
            staff: staff_views(self.staff@),
        }
    }
}

impl Context {
    /// An empty directory.
    pub fn new() -> (r: Context)
        ensures
            r@ == ContextView::empty(),
            r@.wf(),
    {
        let r = Context {
            company_name: String::new(),
            next_department_id: DepartmentId(0),
            next_staff_id: StaffId(0),
            departments: Vec::new(),
            staff: Vec::new(),
        };
        proof {
            assert(department_views(r.departments@) =~= Seq::empty());
            assert(staff_views(r.staff@) =~= Seq::empty());
        }
        r
    }

    pub fn company_name(&self) -> (r: &String)
        ensures
            r@ == self@.company_name,
    {
        &self.company_name
    }

    /// Overwrites the company name.
    pub fn set_company_name(&mut self, name: String)
        ensures
            final(self)@ == (ContextView { company_name: name@, ..old(self)@ }),
            old(self)@.wf() ==> final(self)@.wf(),
    {
        self.company_name = name;
    }

    pub fn next_department_id(&self) -> (r: &DepartmentId)
        ensures
            *r == self@.next_department_id,
    {
        &self.next_department_id
    }

    pub fn next_staff_id(&self) -> (r: &StaffId)
        ensures
            *r == self@.next_staff_id,
    {
        &self.next_staff_id
    }

    pub fn departments(&self) -> (r: &Vec<Department>)
        ensures
            department_views(r@) == self@.departments,
    {
        &self.departments
    }

    pub fn staff(&self) -> (r: &Vec<Staff>)
        ensures
            staff_views(r@) == self@.staff,
    {
        &self.staff
    }

    /// A directory holding exactly the given state, as a snapshot restores it.
    pub fn from_parts(
        company_name: String,
        next_department_id: DepartmentId,
        next_staff_id: StaffId,
        departments: Vec<Department>,
        staff: Vec<Staff>,
    ) -> (r: Context)
        ensures
            r@ == (ContextView {
                company_name: company_name@,
                next_department_id,
                next_staff_id,
                departments: department_views(departments@),
                staff: staff_views(staff@),
            }),
    {
        Context { company_name, next_department_id, next_staff_id, departments, staff }
    }

    /// Replaces the whole state at once with that of `other`.
    pub fn replace_with(&mut self, other: Context)
        ensures
            final(self)@ == other@,
    {
        *self = other;
    }

    /// Hands out the next department identifier and advances the counter.
    fn get_next_department_id(&mut self) -> (r: DepartmentId)
        requires
            old(self).next_department_id.0 < u32::MAX,
        ensures
            r == old(self).next_department_id,
            final(self).next_department_id.0 == old(self).next_department_id.0 + 1,
            final(self).company_name == old(self).company_name,
            final(self).next_staff_id == old(self).next_staff_id,
            final(self).departments == old(self).departments,
            final(self).staff == old(self).staff,
    {
        let ret = self.next_department_id;
        self.next_department_id = DepartmentId(self.next_department_id.0 + 1);
        ret
    }

    /// Whether some stored department carries `dep_id`.
    fn validate_department_id(&self, dep_id: &DepartmentId) -> (r: bool)
        ensures
            r == has_department(self@.departments, *dep_id),
    {
        let mut i: usize = 0;
        while i < self.departments.len()
            invariant
                i <= self.departments.len(),
                forall|j: int| 0 <= j < i ==> (#[trigger] self@.departments[j]).id != *dep_id,
            decreases self.departments.len() - i,
        {
            if self.departments[i].id().0 == dep_id.0 {
                assert(self@.departments[i as int] == self.departments@[i as int]@);
                return true;
            }
            i += 1;
        }
        false
    }

    /// Stores a new department built from `builder`. A parent that names no
    /// stored department is an `UnknownDepartment` error, and then nothing
    /// changes and no identifier is used up. Otherwise the department gets
    /// the next identifier, goes at the end of the sequence, and is returned.
    pub fn insert_department(&mut self, builder: DepartmentBuilder) -> (r: Result<
        &Department,
        ApplicationError,
    >)
        requires
            parent_known(old(self)@.departments, builder.parent) ==> old(
                self,
            )@.next_department_id.0 < u32::MAX,
        ensures
            !parent_known(old(self)@.departments, builder.parent) ==> {
                &&& r == Err::<&Department, ApplicationError>(
                    ApplicationError(ErrorKind::UnknownDepartment),
                )
                &&& final(self)@ == old(self)@
            },
            parent_known(old(self)@.departments, builder.parent) ==> {
                &&& final(self)@ == old(self)@.with_department(
                    builder.name@,
                    builder.parent,
                    builder.active,
                )
                &&& r matches Ok(d) && d@ == final(self)@.departments.last()
            },
            old(self)@.wf() ==> final(self)@.wf(),
    {
        if let Some(dep_id) = builder.parent {
            if !self.validate_department_id(&dep_id) {
                return Err(ApplicationError(ErrorKind::UnknownDepartment));
            }
        }
        let ghost old_view = self@;
        let id = self.get_next_department_id();
        let new_department = Department::new(id, builder);
        self.departments.push(new_department);
        proof {
            assert(department_views(self.departments@) =~= old_view.departments.push(
                new_department@,
            ));
            if old_view.wf() {
                let c = self@;
                assert forall|i: int|
                    0 <= i < c.departments.len() && (#[trigger] c.departments[i]).parent is Some
                        implies exists|j: int|
                    0 <= j < i && (#[trigger] c.departments[j]).id == c.departments[i].parent->0 by {
                    if i == c.departments.len() - 1 {
                        let p = c.departments[i].parent->0;
                        let k = choose|k: int|
                            0 <= k < old_view.departments.len() && (#[trigger] old_view.departments[k]).id == p;
                        assert(c.departments[k] == old_view.departments[k]);
                    } else {
                        assert(c.departments[i] == old_view.departments[i]);
                        let k = choose|k: int|
                            0 <= k < i && (#[trigger] old_view.departments[k]).id
                                == old_view.departments[i].parent->0;
                        assert(c.departments[k] == old_view.departments[k]);
                    }
                }
            }
        }
        let last = self.departments.len() - 1;
        Ok(&self.departments[last])
    }

    /// The first stored department that carries `dep_id`, if any.
    pub fn department(&self, dep_id: &DepartmentId) -> (r: Option<&Department>)
        ensures
            match first_with_id(self@.departments, *dep_id) {
                Some(d) => r matches Some(x) && x@ == d,
                None => r is None,
            },
            r is None <==> !has_department(self@.departments, *dep_id),
    {
        let ghost deps = self@.departments;
        assert(deps.subrange(0, deps.len() as int) =~= deps);
        let mut i: usize = 0;
        while i < self.departments.len()
            invariant
                i <= self.departments.len(),
                deps == self@.departments,
                deps.len() == self.departments.len(),
                first_with_id(deps, *dep_id) == first_with_id(
                    deps.subrange(i as int, deps.len() as int),
                    *dep_id,
                ),
                forall|j: int| 0 <= j < i ==> (#[trigger] deps[j]).id != *dep_id,
            decreases self.departments.len() - i,
        {
            let ghost rest = deps.subrange(i as int, deps.len() as int);
            assert(rest[0] == self.departments@[i as int]@);
            if self.departments[i].id().0 == dep_id.0 {
                return Some(&self.departments[i]);
            }
            assert(rest.drop_first() =~= deps.subrange(i + 1, deps.len() as int));
            i += 1;
        }
        None
    }

    /// How many active staff count towards a department; no aggregation over
    /// the staff is made yet, so the figure is zero.
    fn department_headcount(&self, _dep_id: &DepartmentId) -> (r: u32)
        ensures
            r == 0,
    {
        0
    }

    /// What a department costs each month; no aggregation over the staff is
    /// made yet, so the figure is zero.
    fn department_monthly_expense(&self, _dep_id: &DepartmentId) -> (r: u64)
        ensures
            r == 0,
    {
        0
    }

    /// The info view of the department carrying `dep_id`; absent when no
    /// department carries it.
    pub fn department_info(&self, dep_id: &DepartmentId) -> (r: Option<DepartmentInfo<'_>>)
        ensures
            match first_with_id(self@.departments, *dep_id) {
                Some(d) => r matches Some(info) && info.department@ == d && info.headcount == 0
                    && info.monthly_expense == 0,
                None => r is None,
            },
    {
        let dep = match self.department(dep_id) {
            Some(d) => d,
            None => return None,
        };
        let headcount = self.department_headcount(dep_id);
        let monthly_expense = self.department_monthly_expense(dep_id);
        Some(DepartmentInfo { department: dep, headcount, monthly_expense })
    }

    /// Hands out the next staff identifier and advances the counter.
    fn get_next_staff_id(&mut self) -> (r: StaffId)
        requires
            old(self).next_staff_id.0 < u32::MAX,
        ensures
            r == old(self).next_staff_id,
            final(self).next_staff_id.0 == old(self).next_staff_id.0 + 1,
            final(self).company_name == old(self).company_name,
            final(self).next_department_id == old(self).next_department_id,
            final(self).departments == old(self).departments,
            final(self).staff == old(self).staff,
    {
        let ret = self.next_staff_id;
        self.next_staff_id = StaffId(self.next_staff_id.0 + 1);
        ret
    }

    /// Stores a new staff record built from `builder` under the next staff
    /// identifier. Its department reference is not checked, so this never
    /// fails.
    pub fn insert_staff(&mut self, builder: StaffBuilder) -> (r: Result<&Staff, ApplicationError>)
        requires
            old(self)@.next_staff_id.0 < u32::MAX,
        ensures
            final(self)@ == old(self)@.with_staff(
                staff_from_builder(old(self)@.next_staff_id, builder),
            ),
            r matches Ok(s) && s@ == staff_from_builder(old(self)@.next_staff_id, builder),
            old(self)@.wf() ==> final(self)@.wf(),
    {
        let ghost old_view = self@;
        let id = self.get_next_staff_id();
        let new_staff = Staff::new(id, builder);
        self.staff.push(new_staff);
        proof {
            assert(staff_views(self.staff@) =~= old_view.staff.push(new_staff@));
        }
        let last = self.staff.len() - 1;
        Ok(&self.staff[last])
    }
}

} // verus!
