use vstd::prelude::*;
use crate::person::Gender;
use crate::person::Person;
use crate::numbers::spec_u64_dec;
use crate::numbers::u64_to_dec;
use crate::text::str_eq;

verus! {

/// One department: its name, and its employees under the unique key
/// each was given when added.
pub struct Department {
    pub name: String,
    pub employees: Vec<(String, Person)>,
}

/// Whether `name` names a department of `s`.
pub open spec fn has_dept(s: Seq<Department>, name: Seq<char>) -> bool {
    exists|i: int| 0 <= i < s.len() && s[i].name@ == name
}

/// Whether `key` keys an employee of the department `d`.
pub open spec fn has_employee(d: Department, key: Seq<char>) -> bool {
    exists|j: int| 0 <= j < d.employees@.len() && d.employees@[j].0@ == key
}

/// The personnel records of a company: the departments, no two of one
/// name, and the counter the next unique employee id is drawn from.
pub struct Company {
    pub structure: Vec<Department>,
    pub current_id: usize,
}

impl Company {
    /// The company's invariant: no two departments share a name.
    pub open spec fn wf(&self) -> bool {
        forall|i: int, j: int|
            0 <= i < j < self.structure@.len() ==> self.structure@[i].name@
                != self.structure@[j].name@
    }

    /// A company with no departments and the id counter at zero.
    pub fn new() -> (r: Company)
        ensures
            r.structure@ == Seq::<Department>::empty(),
            r.current_id == 0,
            r.wf(),
    {
        Company { structure: Vec::new(), current_id: 0 }
    }

    /// The position of the department called `name`, if there is one.
    fn find_department(&self, name: &str) -> (r: Option<usize>)
        ensures
            match r {
                Some(i) => i < self.structure@.len() && self.structure@[i as int].name@ == name@,
                None => !has_dept(self.structure@, name@),
            },
    {
        let mut i: usize = 0;
        while i < self.structure.len()
            invariant
                0 <= i <= self.structure@.len(),
                forall|k: int| 0 <= k < i ==> self.structure@[k].name@ != name@,
            decreases self.structure@.len() - i,
        {
            if str_eq(self.structure[i].name.as_str(), name) {
                return Some(i);
            }
            i = i + 1;
        }
        None
    }

    /// Whether the company has a department called `name`.
    pub fn has_department(&self, name: &str) -> (r: bool)
        ensures
            r == has_dept(self.structure@, name@),
    {
        match self.find_department(name) {
            Some(i) => {
                proof {
                    assert(self.structure@[i as int].name@ == name@);
                }
                true
            },
            None => false,
        }
    }

    /// Creates the department called `name`; one that already exists is
    /// kept as it is.
    pub fn create_department(&mut self, name: String)
        requires
            old(self).wf(),
        ensures
            final(self).wf(),
            final(self).current_id == old(self).current_id,
            has_dept(old(self).structure@, name@) ==> final(self).structure@ == old(self).structure@,
            !has_dept(old(self).structure@, name@) ==> {
                &&& final(self).structure@.len() == old(self).structure@.len() + 1
                &&& final(self).structure@.drop_last() == old(self).structure@
                &&& final(self).structure@.last().name@ == name@
                &&& final(self).structure@.last().employees@ == Seq::<(String, Person)>::empty()
            },
    {
        match self.find_department(name.as_str()) {
            Some(_) => {},
            None => {
                self.structure.push(Department { name, employees: Vec::new() });
                proof {
                    assert(self.structure@.drop_last() =~= old(self).structure@);
                }
            },
        }
    }

    /// Deletes the department called `name`; tells whether one existed.
    pub fn delete_department(&mut self, name: &str) -> (r: bool)
        requires
            old(self).wf(),
        ensures
            final(self).wf(),
            final(self).current_id == old(self).current_id,
            r == has_dept(old(self).structure@, name@),
            !r ==> final(self).structure@ == old(self).structure@,
            r ==> (exists|i: int|
                0 <= i < old(self).structure@.len() && old(self).structure@[i].name@ == name@
                    && final(self).structure@ == old(self).structure@.remove(i)),
    {
        match self.find_department(name) {
            Some(i) => {
                self.structure.remove(i);
                proof {
                    let s0 = old(self).structure@;
                    let s1 = self.structure@;
                    assert forall|a: int, b: int|
                        0 <= a < b < s1.len() implies s1[a].name@ != s1[b].name@ by {
                        assert(s1[a] == (if a < i {
                            s0[a]
                        } else {
                            s0[a + 1]
                        }));
                        assert(s1[b] == (if b < i {
                            s0[b]
                        } else {
                            s0[b + 1]
                        }));
                    }
                }
                true
            },
            None => false,
        }
    }

    /// Adds an employee to the department called `department`, under
    /// the key of name and fresh unique id, and advances the counter;
    /// tells whether the department exists, changing nothing when not.
    pub fn add_employee(&mut self, department: &str, name: &str, age: u8, gender: Gender) -> (r:
        bool)
        requires
            old(self).wf(),
            old(self).current_id < usize::MAX,
        ensures
            final(self).wf(),
            r == has_dept(old(self).structure@, department@),
            !r ==> final(self).structure@ == old(self).structure@ && final(self).current_id == old(self).current_id,
            r ==> final(self).current_id == old(self).current_id + 1,
            r ==> (exists|i: int|
                {
                    &&& 0 <= i < old(self).structure@.len()
                    &&& old(self).structure@[i].name@ == department@
                    &&& final(self).structure@.len() == old(self).structure@.len()
                    &&& (forall|k: int|
                        0 <= k < old(self).structure@.len() && k != i ==> final(self).structure@[k] == old(self).structure@[k])
                    &&& final(self).structure@[i].name == old(self).structure@[i].name
                    &&& final(self).structure@[i].employees@.len() == old(self).structure@[i].employees@.len() + 1
                    &&& final(self).structure@[i].employees@.drop_last() == old(self).structure@[i].employees@
                    &&& final(self).structure@[i].employees@.last().0@ == name@ + spec_u64_dec(
                        old(self).current_id as u64,
                    )
                    &&& final(self).structure@[i].employees@.last().1.name@ == name@
                    &&& final(self).structure@[i].employees@.last().1.age == age
                    &&& final(self).structure@[i].employees@.last().1.gender == gender
                    &&& final(self).structure@[i].employees@.last().1.id == old(self).current_id
                }),
    {
        match self.find_department(department) {
            None => false,
            Some(i) => {
                let suffix = u64_to_dec(self.current_id as u64);
                let mut key = name.to_owned();
                key.append(suffix.as_str());
                let person = Person {
                    name: name.to_owned(),
                    age,
                    gender,
                    id: self.current_id,
                };
                let mut dept = self.structure.remove(i);
                dept.employees.push((key, person));
                self.structure.insert(i, dept);
                self.current_id = self.current_id + 1;
                proof {
                    let s0 = old(self).structure@;
                    let s1 = self.structure@;
                    assert(s1.len() == s0.len());
                    assert(forall|k: int| 0 <= k < s0.len() && k != i ==> s1[k] == s0[k]);
                    assert(s1[i as int].employees@.drop_last() =~= s0[i as int].employees@);
                    assert(forall|k: int| 0 <= k < s1.len() ==> s1[k].name@ == s0[k].name@);
                }
                true
            },
        }
    }

    /// Removes the employee under `key` from the department called
    /// `department`; tells whether department and employee existed,
    /// changing nothing when not.
    pub fn remove_employee(&mut self, department: &str, key: &str) -> (r: bool)
        requires
            old(self).wf(),
        ensures
            final(self).wf(),
            final(self).current_id == old(self).current_id,
            r == (exists|i: int|
                0 <= i < old(self).structure@.len() && old(self).structure@[i].name@ == department@
                    && has_employee(old(self).structure@[i], key@)),
            !r ==> final(self).structure@ == old(self).structure@,
            r ==> (exists|i: int, j: int|
                {
                    &&& 0 <= i < old(self).structure@.len()
                    &&& old(self).structure@[i].name@ == department@
                    &&& 0 <= j < old(self).structure@[i].employees@.len()
                    &&& old(self).structure@[i].employees@[j].0@ == key@
                    &&& final(self).structure@.len() == old(self).structure@.len()
                    &&& (forall|k: int|
                        0 <= k < old(self).structure@.len() && k != i ==> final(self).structure@[k] == old(self).structure@[k])
                    &&& final(self).structure@[i].name == old(self).structure@[i].name
                    &&& final(self).structure@[i].employees@ == old(self).structure@[i].employees@.remove(j)
                }),
    {
        let i = match self.find_department(department) {
            None => {
                return false;
            },
            Some(i) => i,
        };
        let mut j: usize = 0;
        let n = self.structure[i].employees.len();
        while j < n
            invariant
                0 <= j <= n,
                old(self).wf(),
                self.structure@ == old(self).structure@,
                self.current_id == old(self).current_id,
                i < self.structure@.len(),
                self.structure@[i as int].name@ == department@,
                n == self.structure@[i as int].employees@.len(),
                forall|k: int| 0 <= k < j ==> self.structure@[i as int].employees@[k].0@ != key@,
            decreases n - j,
        {
            if str_eq(self.structure[i].employees[j].0.as_str(), key) {
                let mut dept = self.structure.remove(i);
                dept.employees.remove(j);
                self.structure.insert(i, dept);
                proof {
                    let s0 = old(self).structure@;
                    let s1 = self.structure@;
                    assert(s1.len() == s0.len());
                    assert(forall|k: int| 0 <= k < s0.len() && k != i ==> s1[k] == s0[k]);
                    assert(forall|k: int| 0 <= k < s1.len() ==> s1[k].name@ == s0[k].name@);
                    assert forall|a: int, b: int|
                        0 <= a < b < s1.len() implies s1[a].name@ != s1[b].name@ by {
                        assert(s1[a].name@ == s0[a].name@);
                        assert(s1[b].name@ == s0[b].name@);
                    }
                    assert(has_employee(s0[i as int], key@));
                }
                return true;
            }
            j = j + 1;
        }
        proof {
            assert(!has_employee(self.structure@[i as int], key@));
            assert forall|a: int|
                0 <= a < self.structure@.len() && self.structure@[a].name@ == department@
                    implies a == i by {
                if a != i {
                    assert(self.structure@[a].name@ != self.structure@[i as int].name@);
                }
            }
        }
        false
    }
}

} // verus!
