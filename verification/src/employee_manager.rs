//! The employee directory: departments, each with its list of employees,
//! driven by word-level commands.
//!
//! The surrounding program reads lines, splits them into words, and hands
//! the words after the command verb to these handlers.

use vstd::prelude::*;

use crate::text;

verus! {

pub const ADD_USAGE: &'static str = "Add <employee> to <department>";

pub const REMOVE_USAGE: &'static str = "Remove <employee> from <department>";

pub const PRINT_USAGE: &'static str = "Print <department>";

pub const PRINTALL_USAGE: &'static str = "Printall";

#[derive(Debug)]
pub enum ErrorType {
    UnknownCommand(String),
    BadUsage(&'static str),
    DepartmentNotFound(String),
    EmployeeNotFound(String, String),
}

pub struct Department {
    pub name: String,
    pub employees: Vec<String>,
}

/// No two departments share a name.
pub open spec fn distinct_departments(m: Seq<Department>) -> bool {
    forall|i: int, k: int|
        0 <= i < k < m.len() ==> (#[trigger] m[i]).name@ != (#[trigger] m[k]).name@
}

pub open spec fn has_dept(m: Seq<Department>, name: Seq<char>) -> bool {
    exists|i: int| 0 <= i < m.len() && (#[trigger] m[i]).name@ == name
}

pub open spec fn dept_index(m: Seq<Department>, name: Seq<char>) -> int {
    choose|i: int| 0 <= i < m.len() && (#[trigger] m[i]).name@ == name
}

pub open spec fn has_employee(employees: Seq<String>, name: Seq<char>) -> bool {
    exists|j: int| 0 <= j < employees.len() && (#[trigger] employees[j])@ == name
}

/// `words` form a well-shaped `Add`/`Remove` argument list: employee, the
/// fixed joining word, department.
pub open spec fn well_shaped(words: Seq<String>, joiner: Seq<char>) -> bool {
    words.len() == 3 && words[1]@ == joiner
}

/// Finds the department with the given name, if any.
fn find_dept(map: &Vec<Department>, name: &String) -> (r: Option<usize>)
    ensures
        r matches Some(i) ==> i < map@.len() && map@[i as int].name@ == name@
            && has_dept(map@, name@),
        r is None ==> !has_dept(map@, name@),
{
    let mut j: usize = 0;
    while j < map.len()
        invariant
            j <= map@.len(),
            forall|k: int| 0 <= k < j ==> (#[trigger] map@[k]).name@ != name@,
        decreases map@.len() - j,
    {
        if text::str_eq(map[j].name.as_str(), name.as_str()) {
            return Some(j);
        }
        j += 1;
    }
    None
}

/// Handles `Add <employee> to <department>`, `words` being the words after
/// the verb. The employee joins the department's list; a department is
/// created the first time it is named. Malformed words leave the directory
/// untouched.
pub fn handle_add(map: &mut Vec<Department>, words: &Vec<String>) -> (r: Result<
    (),
    ErrorType,
>)
    requires
        distinct_departments(old(map)@),
        old(map)@.len() < usize::MAX,
    ensures
        distinct_departments(final(map)@),
        !well_shaped(words@, "to"@) ==> {
            &&& (r matches Err(e) && e matches ErrorType::BadUsage(u) && u@ == ADD_USAGE@)
            &&& final(map)@ == old(map)@
        },
        well_shaped(words@, "to"@) && has_dept(old(map)@, words@[2]@) ==> {
            let di = dept_index(old(map)@, words@[2]@);
            &&& r is Ok
            &&& final(map)@.len() == old(map)@.len()
            &&& final(map)@[di].name == old(map)@[di].name
            &&& final(map)@[di].employees@ == old(map)@[di].employees@.push(words@[0])
            &&& forall|k: int|
                0 <= k < old(map)@.len() && k != di ==> final(map)@[k] == old(map)@[k]
        },
        well_shaped(words@, "to"@) && !has_dept(old(map)@, words@[2]@) ==> {
            &&& r is Ok
            &&& final(map)@.len() == old(map)@.len() + 1
            &&& final(map)@.last().name@ == words@[2]@
            &&& final(map)@.last().employees@ == seq![words@[0]]
            &&& forall|k: int|
                0 <= k < old(map)@.len() ==> final(map)@[k] == old(map)@[k]
        },
{
    proof {
        reveal_strlit("to");
    }
    if words.len() != 3 {
        return Err(ErrorType::BadUsage(ADD_USAGE));
    }
    if !text::str_eq(words[1].as_str(), "to") {
        return Err(ErrorType::BadUsage(ADD_USAGE));
    }
    let employee = words[0].clone();
    let department = words[2].clone();

    let ghost m0 = map@;
    match find_dept(map, &department) {
        Some(i) => {
            proof {
                let di = dept_index(m0, words@[2]@);
                assert(m0[di].name@ == words@[2]@);
                assert(di == i as int);
            }
            let mut d = map.remove(i);
            d.employees.push(employee);
            map.insert(i, d);
            proof {
                assert(map@ =~= m0.update(
                    i as int,
                    (Department {
                        name: m0[i as int].name,
                        employees: map@[i as int].employees,
                    }),
                ));
            }
            Ok(())
        },
        None => {
            let mut employees = Vec::new();
            employees.push(employee);
            map.push(Department { name: department, employees });
            proof {
                assert(map@.last().employees@ =~= seq![words@[0]]);
                assert(forall|i: int, k: int|
                    0 <= i < k < map@.len() ==> (#[trigger] map@[i]).name@ != (
                    #[trigger] map@[k]).name@);
            }
            Ok(())
        },
    }
}

/// Whether the given employee is listed in department `i`.
fn employee_listed(map: &Vec<Department>, i: usize, name: &String) -> (r: bool)
    requires
        i < map@.len(),
    ensures
        r == has_employee(map@[i as int].employees@, name@),
{
    let mut j: usize = 0;
    while j < map[i].employees.len()
        invariant
            i < map@.len(),
            j <= map@[i as int].employees@.len(),
            forall|k: int|
                0 <= k < j ==> (#[trigger] map@[i as int].employees@[k])@ != name@,
        decreases map@[i as int].employees@.len() - j,
    {
        if text::str_eq(map[i].employees[j].as_str(), name.as_str()) {
            return true;
        }
        j += 1;
    }
    false
}

/// Handles `Remove <employee> from <department>`, `words` being the words
/// after the verb. When the named employee is present, an entry leaves the
/// department's list — the list's first entry, with the last one moved
/// into its place — and a department losing its only employee disappears
/// entirely. Anything else reports an error and leaves the directory
/// untouched.
pub fn handle_remove(map: &mut Vec<Department>, words: &Vec<String>) -> (r: Result<
    (),
    ErrorType,
>)
    requires
        distinct_departments(old(map)@),
    ensures
        distinct_departments(final(map)@),
        words@.len() < 3 || (words@.len() >= 3 && words@[1]@ != "from"@) ==> {
            &&& (r matches Err(e) && e matches ErrorType::BadUsage(u) && u@
                == REMOVE_USAGE@)
            &&& final(map)@ == old(map)@
        },
        words@.len() > 3 && words@[1]@ == "from"@ ==> {
            &&& (r matches Err(e) && e matches ErrorType::BadUsage(u) && u@ == ADD_USAGE@)
            &&& final(map)@ == old(map)@
        },
        well_shaped(words@, "from"@) && !has_dept(old(map)@, words@[2]@) ==> {
            &&& r matches Err(e) && e is DepartmentNotFound
            &&& final(map)@ == old(map)@
        },
        well_shaped(words@, "from"@) && has_dept(old(map)@, words@[2]@)
            && !has_employee(old(map)@[dept_index(old(map)@, words@[2]@)].employees@, words@[0]@)
            ==> {
            &&& r matches Err(e) && e is EmployeeNotFound
            &&& final(map)@ == old(map)@
        },
        well_shaped(words@, "from"@) && has_dept(old(map)@, words@[2]@)
            && has_employee(old(map)@[dept_index(old(map)@, words@[2]@)].employees@, words@[0]@)
            ==> {
            let di = dept_index(old(map)@, words@[2]@);
            let emps = old(map)@[di].employees@;
            &&& r is Ok
            &&& (emps.len() == 1 ==> final(map)@ == old(map)@.remove(di))
            &&& (emps.len() > 1 ==> {
                &&& final(map)@.len() == old(map)@.len()
                &&& final(map)@[di].name == old(map)@[di].name
                &&& final(map)@[di].employees@ == emps.update(0, emps.last()).drop_last()
                &&& forall|k: int|
                    0 <= k < old(map)@.len() && k != di ==> final(map)@[k] == old(
                        map,
                    )@[k]
            })
        },
{
    proof {
        reveal_strlit("from");
    }
    if words.len() < 3 {
        return Err(ErrorType::BadUsage(REMOVE_USAGE));
    }
    if !text::str_eq(words[1].as_str(), "from") {
        return Err(ErrorType::BadUsage(REMOVE_USAGE));
    }
    if words.len() > 3 {
        return Err(ErrorType::BadUsage(ADD_USAGE));
    }
    let employee = words[0].clone();
    let department = words[2].clone();

    let i = match find_dept(map, &department) {
        Some(i) => i,
        None => {
            return Err(ErrorType::DepartmentNotFound(department));
        },
    };

    let ghost m0 = map@;
    let found = employee_listed(map, i, &employee);

    if !found {
        return Err(ErrorType::EmployeeNotFound(department, employee));
    }

    proof {
        let di = dept_index(m0, words@[2]@);
        assert(m0[di].name@ == words@[2]@);
        assert(di == i as int);
    }
    if map[i].employees.len() == 1 {
        let _ = map.remove(i);
    } else {
        let mut d = map.remove(i);
        d.employees.swap_remove(0);
        map.insert(i, d);
        proof {
            assert(map@ =~= m0.update(
                i as int,
                (Department {
                    name: m0[i as int].name,
                    employees: map@[i as int].employees,
                }),
            ));
        }
    }
    Ok(())
}

/// One `(department, employee)` pair per employee of the department.
pub open spec fn dept_pairs(d: Department) -> Seq<(String, String)> {
    Seq::new(d.employees@.len(), |j: int| (d.name, d.employees@[j]))
}

/// Every `(department, employee)` pair of the directory.
pub open spec fn all_pairs(m: Seq<Department>) -> Seq<(String, String)>
    decreases m.len(),
{
    if m.len() == 0 {
        Seq::empty()
    } else {
        all_pairs(m.drop_last()) + dept_pairs(m.last())
    }
}

/// Each pair's employee name comes no later than the next one's.
pub open spec fn sorted_by_employee(s: Seq<(String, String)>) -> bool {
    forall|i: int| 0 <= i < s.len() - 1 ==> text::lex_le((#[trigger] s[i]).1@, s[i + 1].1@)
}

/// Sorts the pairs by employee name, keeping exactly the same pairs.
fn sort_pairs_by_employee(v: &mut Vec<(String, String)>)
    ensures
        sorted_by_employee(final(v)@),
        final(v)@.to_multiset() == old(v)@.to_multiset(),
{
    proof {
        broadcast use vstd::seq_lib::group_to_multiset_ensures;
        broadcast use vstd::multiset::group_multiset_axioms;

        assert(Seq::<(String, String)>::empty().to_multiset().add(old(v)@.to_multiset())
            =~= old(v)@.to_multiset());
    }
    let mut out: Vec<(String, String)> = Vec::new();
    while v.len() > 0
        invariant
            out@.to_multiset().add(v@.to_multiset()) == old(v)@.to_multiset(),
            sorted_by_employee(out@),
            out@.len() > 0 ==> forall|j: int|
                0 <= j < v@.len() ==> text::lex_le(out@.last().1@, (#[trigger] v@[j]).1@),
        decreases v@.len(),
    {
        let mut m: usize = 0;
        let mut j: usize = 1;
        proof {
            text::lemma_lex_le_refl(v@[0].1@);
        }
        while j < v.len()
            invariant
                m < j,
                j <= v@.len(),
                v@.len() > 0,
                forall|k: int|
                    0 <= k < j ==> text::lex_le(v@[m as int].1@, (#[trigger] v@[k]).1@),
            decreases v@.len() - j,
        {
            if text::str_le(v[j].1.as_str(), v[m].1.as_str()) {
                proof {
                    assert forall|k: int| 0 <= k < j + 1 implies text::lex_le(
                        v@[j as int].1@,
                        (#[trigger] v@[k]).1@,
                    ) by {
                        if k < j {
                            text::lemma_lex_le_trans(
                                v@[j as int].1@,
                                v@[m as int].1@,
                                v@[k].1@,
                            );
                        } else {
                            text::lemma_lex_le_refl(v@[j as int].1@);
                        }
                    }
                }
                m = j;
            } else {
                proof {
                    text::lemma_lex_le_total(v@[j as int].1@, v@[m as int].1@);
                }
            }
            j += 1;
        }
        let ghost v_before = v@;
        let ghost out_before = out@;
        let x = v.remove(m);
        out.push(x);
        proof {
            broadcast use vstd::seq_lib::group_to_multiset_ensures;
            broadcast use vstd::multiset::group_multiset_axioms;

            assert(out@.to_multiset() =~= out_before.to_multiset().insert(x));
            assert(v@.to_multiset() =~= v_before.to_multiset().remove(x));
            assert(v_before.to_multiset().count(x) > 0);
            assert(out@.to_multiset().add(v@.to_multiset()) =~= out_before.to_multiset().add(
                v_before.to_multiset(),
            ));
            assert(sorted_by_employee(out@));
            assert forall|k: int| 0 <= k < v@.len() implies text::lex_le(
                out@.last().1@,
                (#[trigger] v@[k]).1@,
            ) by {
                if k < m {
                    assert(v@[k] == v_before[k]);
                } else {
                    assert(v@[k] == v_before[k + 1]);
                }
            }
        }
    }
    proof {
        broadcast use vstd::seq_lib::group_to_multiset_ensures;
        broadcast use vstd::multiset::group_multiset_axioms;

        assert(v@.to_multiset().len() == 0);
        assert(out@.to_multiset().add(v@.to_multiset()) =~= out@.to_multiset());
    }
    *v = out;
}

/// Handles `Print <department>`, `words` being the words after the verb:
/// sorts that department's employees in place and reports its position,
/// for the caller to show. Malformed words or an unknown department leave
/// the directory untouched.
pub fn handle_print(map: &mut Vec<Department>, words: &Vec<String>) -> (r: Result<
    usize,
    ErrorType,
>)
    requires
        distinct_departments(old(map)@),
    ensures
        distinct_departments(final(map)@),
        words@.len() == 0 ==> {
            &&& (r matches Err(e) && e matches ErrorType::BadUsage(u) && u@
                == PRINT_USAGE@)
            &&& final(map)@ == old(map)@
        },
        words@.len() > 1 ==> {
            &&& (r matches Err(e) && e matches ErrorType::BadUsage(u) && u@ == ADD_USAGE@)
            &&& final(map)@ == old(map)@
        },
        words@.len() == 1 && !has_dept(old(map)@, words@[0]@) ==> {
            &&& r matches Err(e) && e is DepartmentNotFound
            &&& final(map)@ == old(map)@
        },
        words@.len() == 1 && has_dept(old(map)@, words@[0]@) ==> {
            let di = dept_index(old(map)@, words@[0]@);
            &&& r == Ok::<usize, ErrorType>(di as usize)
            &&& final(map)@.len() == old(map)@.len()
            &&& final(map)@[di].name == old(map)@[di].name
            &&& text::sorted_strings(final(map)@[di].employees@)
            &&& final(map)@[di].employees@.to_multiset()
                == old(map)@[di].employees@.to_multiset()
            &&& forall|k: int|
                0 <= k < old(map)@.len() && k != di ==> final(map)@[k] == old(map)@[k]
        },
{
    if words.len() < 1 {
        return Err(ErrorType::BadUsage(PRINT_USAGE));
    }
    if words.len() > 1 {
        return Err(ErrorType::BadUsage(ADD_USAGE));
    }
    let department = words[0].clone();

    let ghost m0 = map@;
    let i = match find_dept(map, &department) {
        Some(i) => i,
        None => {
            return Err(ErrorType::DepartmentNotFound(department));
        },
    };
    proof {
        let di = dept_index(m0, words@[0]@);
        assert(m0[di].name@ == words@[0]@);
        assert(di == i as int);
    }

    let mut d = map.remove(i);
    text::sort_strings(&mut d.employees);
    map.insert(i, d);
    proof {
        assert(map@ =~= m0.update(
            i as int,
            (Department { name: m0[i as int].name, employees: map@[i as int].employees }),
        ));
    }
    Ok(i)
}

/// Handles `Printall`, `words` being the words after the verb: returns
/// every `(department, employee)` pair, ordered by employee name.
pub fn handle_printall(map: &Vec<Department>, words: &Vec<String>) -> (r: Result<
    Vec<(String, String)>,
    ErrorType,
>)
    ensures
        words@.len() != 0 ==> (r matches Err(e) && e matches ErrorType::BadUsage(u) && u@
            == PRINTALL_USAGE@),
        words@.len() == 0 ==> (r matches Ok(pairs) && {
            &&& sorted_by_employee(pairs@)
            &&& pairs@.to_multiset() == all_pairs(map@).to_multiset()
        }),
{
    if words.len() > 0 {
        return Err(ErrorType::BadUsage(PRINTALL_USAGE));
    }

    let mut all: Vec<(String, String)> = Vec::new();
    let mut i: usize = 0;
    proof {
        assert(all@ =~= all_pairs(map@.take(0)));
    }
    while i < map.len()
        invariant
            i <= map@.len(),
            all@ == all_pairs(map@.take(i as int)),
        decreases map@.len() - i,
    {
        let mut j: usize = 0;
        while j < map[i].employees.len()
            invariant
                i < map@.len(),
                j <= map@[i as int].employees@.len(),
                all@ == all_pairs(map@.take(i as int)) + dept_pairs(
                    map@[i as int],
                ).take(j as int),
            decreases map@[i as int].employees@.len() - j,
        {
            all.push((map[i].name.clone(), map[i].employees[j].clone()));
            proof {
                let jj = j as int;
                assert(dept_pairs(map@[i as int]).take(jj + 1) =~= dept_pairs(
                    map@[i as int],
                ).take(jj).push((map@[i as int].name, map@[i as int].employees@[jj])));
                assert(all@ =~= all_pairs(map@.take(i as int)) + dept_pairs(
                    map@[i as int],
                ).take(j + 1 as int));
            }
            j += 1;
        }
        proof {
            assert(map@.take(i + 1 as int).drop_last() =~= map@.take(i as int));
            assert(map@.take(i + 1 as int).last() == map@[i as int]);
            assert(dept_pairs(map@[i as int]).take(
                map@[i as int].employees@.len() as int,
            ) =~= dept_pairs(map@[i as int]));
            assert(all@ =~= all_pairs(map@.take(i + 1 as int)));
        }
        i += 1;
    }
    proof {
        assert(map@.take(map@.len() as int) =~= map@);
    }

    sort_pairs_by_employee(&mut all);
    Ok(all)
}

} // verus!
