use rust_book::employees::{
    get_details_action, get_single_action, parse_employee_details, Company, EmployeeActions,
    EmployeeDetails, SessionStep,
};

fn details(a: &EmployeeActions) -> Option<(String, String)> {
    match a {
        EmployeeActions::Add(d) | EmployeeActions::Remove(d) => {
            Some((d.name.clone(), d.department.clone()))
        }
        _ => None,
    }
}

fn message(a: &EmployeeActions) -> String {
    match a {
        EmployeeActions::Repeat(m) => m.clone(),
        _ => String::from("no message"),
    }
}

#[test]
fn one_word_commands() {
    assert!(matches!(get_single_action("quit"), EmployeeActions::Quit));
    assert!(matches!(get_single_action("EXIT"), EmployeeActions::Quit));
    assert!(matches!(get_single_action("Display"), EmployeeActions::Display));
    assert!(matches!(get_single_action("continue"), EmployeeActions::Display));
    assert!(matches!(get_single_action("FINISHED"), EmployeeActions::Display));
    assert_eq!(message(&get_single_action("Repeat")), "Repeat requested");
    assert_eq!(message(&get_single_action("Hello")), "Did not recognise input Hello");
}

#[test]
fn three_word_commands() {
    let add = parse_employee_details("add Alice Eng");
    assert!(matches!(add, EmployeeActions::Add(_)));
    assert_eq!(details(&add), Some((String::from("Alice"), String::from("Eng"))));
    let remove = parse_employee_details("REMOVE Bob Sales");
    assert!(matches!(remove, EmployeeActions::Remove(_)));
    assert_eq!(details(&remove), Some((String::from("Bob"), String::from("Sales"))));
    assert_eq!(message(&parse_employee_details("move Bob Sales")), "Failed to parse an action");
}

#[test]
fn four_word_command_takes_last_word_as_department() {
    let add = parse_employee_details("Add Sally to Engineering");
    assert!(matches!(add, EmployeeActions::Add(_)));
    assert_eq!(details(&add), Some((String::from("Sally"), String::from("Engineering"))));
}

#[test]
fn other_word_counts() {
    assert_eq!(message(&parse_employee_details("add Alice")), "Insufficient data entered");
    assert_eq!(message(&parse_employee_details("a b c d e")), "Too much data entered");
    assert_eq!(message(&parse_employee_details("")), "Did not recognise input ");
    let doubled = parse_employee_details("add  Alice");
    assert_eq!(details(&doubled), Some((String::new(), String::from("Alice"))));
}

#[test]
fn details_need_three_words() {
    assert_eq!(message(&get_details_action(&["add", "Alice"])), "Not enough inputs");
    assert_eq!(message(&get_details_action(&[])), "Not enough inputs");
    let a = get_details_action(&["add", "Alice", "Eng"]);
    assert_eq!(details(&a), Some((String::from("Alice"), String::from("Eng"))));
}

fn listing(c: &Company) -> Vec<(String, Vec<String>)> {
    c.departments()
        .iter()
        .map(|d| (d.name.clone(), d.employees.clone()))
        .collect()
}

fn employee(name: &str, department: &str) -> EmployeeDetails {
    EmployeeDetails { name: String::from(name), department: String::from(department) }
}

#[test]
fn add_then_remove_deletes_department() {
    let mut c = Company::new();
    c.apply(parse_employee_details("add Alice Eng"));
    assert_eq!(c.employees_of("Eng"), Some(&vec![String::from("Alice")]));
    c.apply(parse_employee_details("remove Alice Eng"));
    assert!(c.employees_of("Eng").is_none());
    assert!(c.departments().is_empty());
}

#[test]
fn remove_takes_first_match_only() {
    let mut c = Company::new();
    c.add(employee("Alice", "Eng"));
    c.add(employee("Bob", "Eng"));
    c.add(employee("Alice", "Eng"));
    c.add(employee("Carol", "Sales"));
    c.remove(employee("Alice", "Eng"));
    assert_eq!(c.employees_of("Eng"), Some(&vec![String::from("Bob"), String::from("Alice")]));
    c.remove(employee("Dave", "Eng"));
    c.remove(employee("Alice", "Ops"));
    assert_eq!(
        listing(&c),
        vec![
            (String::from("Eng"), vec![String::from("Bob"), String::from("Alice")]),
            (String::from("Sales"), vec![String::from("Carol")]),
        ]
    );
}

#[test]
fn display_twice_shows_the_same() {
    let mut c = Company::new();
    c.apply(parse_employee_details("add Alice Eng"));
    c.apply(parse_employee_details("add Bob Sales"));
    assert!(matches!(c.apply(parse_employee_details("display")), SessionStep::Display));
    let first = listing(&c);
    assert!(matches!(c.apply(parse_employee_details("display")), SessionStep::Display));
    assert_eq!(listing(&c), first);
}

#[test]
fn session_steps() {
    let mut c = Company::new();
    assert!(matches!(c.apply(parse_employee_details("add Alice Eng")), SessionStep::Continue));
    assert!(matches!(c.apply(parse_employee_details("quit")), SessionStep::Quit));
    match c.apply(parse_employee_details("hello there")) {
        SessionStep::Retry(m) => assert_eq!(m, "Insufficient data entered"),
        _ => panic!("expected a retry"),
    }
    assert_eq!(listing(&c), vec![(String::from("Eng"), vec![String::from("Alice")])]);
}
