use webweb::employee_manager::{handle_add, handle_remove, Department, ErrorType};

fn words(a: &str, b: &str, c: &str) -> Vec<String> {
    vec![String::from(a), String::from(b), String::from(c)]
}

#[test]
fn adding_creates_the_department() {
    let mut map: Vec<Department> = Vec::new();
    let r = handle_add(&mut map, &words("Sally", "to", "Engineering"));
    assert!(r.is_ok());
    assert_eq!(map.len(), 1);
    assert_eq!(map[0].name, "Engineering");
    assert_eq!(map[0].employees, vec![String::from("Sally")]);
}

#[test]
fn adding_appends_to_an_existing_department() {
    let mut map: Vec<Department> = Vec::new();
    assert!(handle_add(&mut map, &words("Sally", "to", "Engineering")).is_ok());
    assert!(handle_add(&mut map, &words("Amir", "to", "Sales")).is_ok());
    assert!(handle_add(&mut map, &words("Tom", "to", "Engineering")).is_ok());
    assert_eq!(map.len(), 2);
    assert_eq!(map[0].employees, vec![String::from("Sally"), String::from("Tom")]);
    assert_eq!(map[1].employees, vec![String::from("Amir")]);
}

#[test]
fn adding_needs_the_word_to() {
    let mut map: Vec<Department> = Vec::new();
    let r = handle_add(&mut map, &words("Sally", "into", "Engineering"));
    assert!(matches!(r, Err(ErrorType::BadUsage(_))));
    assert_eq!(map.len(), 0);

    let r = handle_add(&mut map, &vec![String::from("Sally")]);
    assert!(matches!(r, Err(ErrorType::BadUsage(_))));
}

#[test]
fn removing_from_a_missing_department_fails() {
    let mut map: Vec<Department> = Vec::new();
    let r = handle_remove(&mut map, &words("Sally", "from", "Engineering"));
    assert!(matches!(r, Err(ErrorType::DepartmentNotFound(_))));
}

#[test]
fn removing_a_missing_employee_fails() {
    let mut map: Vec<Department> = Vec::new();
    assert!(handle_add(&mut map, &words("Sally", "to", "Engineering")).is_ok());
    let r = handle_remove(&mut map, &words("Bob", "from", "Engineering"));
    assert!(matches!(r, Err(ErrorType::EmployeeNotFound(_, _))));
    assert_eq!(map[0].employees.len(), 1);
}

#[test]
fn removing_the_last_employee_drops_the_department() {
    let mut map: Vec<Department> = Vec::new();
    assert!(handle_add(&mut map, &words("Sally", "to", "Engineering")).is_ok());
    let r = handle_remove(&mut map, &words("Sally", "from", "Engineering"));
    assert!(r.is_ok());
    assert_eq!(map.len(), 0);
}

#[test]
fn removal_takes_the_front_entry_when_several_remain() {
    let mut map: Vec<Department> = Vec::new();
    assert!(handle_add(&mut map, &words("Sally", "to", "Engineering")).is_ok());
    assert!(handle_add(&mut map, &words("Tom", "to", "Engineering")).is_ok());
    assert!(handle_add(&mut map, &words("Ana", "to", "Engineering")).is_ok());
    // A matching name admits the removal, but it is the list's first entry
    // that leaves, with the last one moved into its place.
    let r = handle_remove(&mut map, &words("Tom", "from", "Engineering"));
    assert!(r.is_ok());
    assert_eq!(map[0].employees, vec![String::from("Ana"), String::from("Tom")]);
}

#[test]
fn removing_with_extra_words_is_bad_usage() {
    let mut map: Vec<Department> = Vec::new();
    assert!(handle_add(&mut map, &words("Sally", "to", "Engineering")).is_ok());
    let mut w = words("Sally", "from", "Engineering");
    w.push(String::from("please"));
    let r = handle_remove(&mut map, &w);
    assert!(matches!(r, Err(ErrorType::BadUsage(_))));
    assert_eq!(map[0].employees.len(), 1);
}

#[test]
fn printing_sorts_the_department() {
    let mut map: Vec<Department> = Vec::new();
    assert!(handle_add(&mut map, &words("Sally", "to", "Engineering")).is_ok());
    assert!(handle_add(&mut map, &words("Ana", "to", "Engineering")).is_ok());
    assert!(handle_add(&mut map, &words("Tom", "to", "Engineering")).is_ok());
    let r = webweb::employee_manager::handle_print(&mut map, &vec![String::from("Engineering")]);
    assert_eq!(r.unwrap(), 0);
    assert_eq!(
        map[0].employees,
        vec![String::from("Ana"), String::from("Sally"), String::from("Tom")]
    );
}

#[test]
fn printall_orders_everyone_by_name() {
    let mut map: Vec<Department> = Vec::new();
    assert!(handle_add(&mut map, &words("Sally", "to", "Engineering")).is_ok());
    assert!(handle_add(&mut map, &words("Amir", "to", "Sales")).is_ok());
    assert!(handle_add(&mut map, &words("Ana", "to", "Engineering")).is_ok());
    let pairs = webweb::employee_manager::handle_printall(&map, &Vec::new()).unwrap();
    assert_eq!(
        pairs,
        vec![
            (String::from("Sales"), String::from("Amir")),
            (String::from("Engineering"), String::from("Ana")),
            (String::from("Engineering"), String::from("Sally")),
        ]
    );
}

#[test]
fn sort_strings_orders_lexicographically() {
    let mut v = vec![
        String::from("pear"),
        String::from("Apple"),
        String::from("apple"),
        String::from(""),
        String::from("applesauce"),
    ];
    webweb::text::sort_strings(&mut v);
    assert_eq!(
        v,
        vec![
            String::from(""),
            String::from("Apple"),
            String::from("apple"),
            String::from("applesauce"),
            String::from("pear"),
        ]
    );
}
