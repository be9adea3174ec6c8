//! Line commands for the employee registry, and the registry they act on.

use vstd::prelude::*;

use crate::text::{same_text, split_at_char, split_on, views_of};

verus! {

/// An employee and the department they belong to.
#[derive(Debug)]
pub struct EmployeeDetails {
    pub name: String,
    pub department: String,
}

/// One parsed command line.
#[derive(Debug)]
pub enum EmployeeActions {
    Add(EmployeeDetails),
    Remove(EmployeeDetails),
    Repeat(String),
    Display,
    Quit,
}

/// A command with its texts as characters: `Add(name, department)`.
pub enum Command {
    Add(Seq<char>, Seq<char>),
    Remove(Seq<char>, Seq<char>),
    Repeat(Seq<char>),
    Display,
    Quit,
}

impl View for EmployeeActions {
    type V = Command;

    open spec fn view(&self) -> Command {
        match self {
            EmployeeActions::Add(d) => Command::Add(d.name@, d.department@),
            EmployeeActions::Remove(d) => Command::Remove(d.name@, d.department@),
            EmployeeActions::Repeat(m) => Command::Repeat(m@),
            EmployeeActions::Display => Command::Display,
            EmployeeActions::Quit => Command::Quit,
        }
    }
}

/// What `str::to_lowercase` makes of a text.
pub uninterp spec fn lower_of(s: Seq<char>) -> Seq<char>;

/// Relies on `str::to_lowercase`: its result depends on the characters alone.
#[verifier::external_body]
fn lowercase(s: &str) -> (r: String)
    ensures
        r@ == lower_of(s@),
{
    s.to_lowercase()
}

/// The command given by a line of one word, `lowered` being that word in lower case.
pub open spec fn single_command(lowered: Seq<char>, word: Seq<char>) -> Command {
    if lowered == "quit"@ || lowered == "exit"@ {
        Command::Quit
    } else if lowered == "continue"@ || lowered == "display"@ || lowered == "finished"@ {
        Command::Display
    } else if lowered == "repeat"@ {
        Command::Repeat("Repeat requested"@)
    } else {
        Command::Repeat("Did not recognise input "@ + word)
    }
}

/// The command given by the words of a line of three or more words, `verb`
/// being the first word in lower case. The name is the second word; the
/// department is the third word of three, or the fourth of more.
pub open spec fn details_command(verb: Seq<char>, words: Seq<Seq<char>>) -> Command {
    if words.len() >= 3 {
        let name = words[1];
        let department = if words.len() == 3 {
            words[2]
        } else {
            words[3]
        };
        if verb == "add"@ {
            Command::Add(name, department)
        } else if verb == "remove"@ {
            Command::Remove(name, department)
        } else {
            Command::Repeat("Failed to parse an action"@)
        }
    } else {
        Command::Repeat("Not enough inputs"@)
    }
}

/// The command that a line stands for, its words being cut at single spaces.
pub open spec fn line_command(line: Seq<char>) -> Command {
    let words = split_on(line, ' ');
    if words.len() == 0 {
        Command::Repeat("No data was entered"@)
    } else if words.len() == 1 {
        single_command(lower_of(words[0]), words[0])
    } else if words.len() == 2 {
        Command::Repeat("Insufficient data entered"@)
    } else if words.len() <= 4 {
        details_command(lower_of(words[0]), words)
    } else {
        Command::Repeat("Too much data entered"@)
    }
}

/// The command given by a one-word line, from the word already in lower case.
pub fn single_action_for(lowered: &str, action: &str) -> (r: EmployeeActions)
    ensures
        r@ == single_command(lowered@, action@),
{
    if same_text(lowered, "quit") || same_text(lowered, "exit") {
        EmployeeActions::Quit
    } else if same_text(lowered, "continue") || same_text(lowered, "display") || same_text(
        lowered,
        "finished",
    ) {
        EmployeeActions::Display
    } else if same_text(lowered, "repeat") {
        EmployeeActions::Repeat(String::from_str("Repeat requested"))
    } else {
        let mut message = String::from_str("Did not recognise input ");
        message.append(action);
        EmployeeActions::Repeat(message)
    }
}

pub fn get_single_action(action: &str) -> (r: EmployeeActions)
    ensures
        r@ == single_command(lower_of(action@), action@),
{
    let lowered = lowercase(action);
    single_action_for(lowered.as_str(), action)
}

/// The command given by the words of a longer line, from its first word
/// already in lower case.
pub fn details_action_for(verb: &str, action: &[&str]) -> (r: EmployeeActions)
    ensures
        r@ == details_command(verb@, views_of(action@)),
{
    if action.len() >= 3 {
        let name = String::from_str(action[1]);
        let department = if action.len() == 3 {
            String::from_str(action[2])
        } else {
            String::from_str(action[3])
        };
        let employee_details = EmployeeDetails { name, department };
        if same_text(verb, "add") {
            EmployeeActions::Add(employee_details)
        } else if same_text(verb, "remove") {
            EmployeeActions::Remove(employee_details)
        } else {
            EmployeeActions::Repeat(String::from_str("Failed to parse an action"))
        }
    } else {
        EmployeeActions::Repeat(String::from_str("Not enough inputs"))
    }
}

pub fn get_details_action(action: &[&str]) -> (r: EmployeeActions)
    ensures
        r@ == details_command(lower_of(action@[0]@), views_of(action@)),
{
    if action.len() >= 3 {
        let verb = lowercase(action[0]);
        details_action_for(verb.as_str(), action)
    } else {
        EmployeeActions::Repeat(String::from_str("Not enough inputs"))
    }
}

/// Reads one command line; its words are separated by single spaces.
pub fn parse_employee_details(line: &str) -> (r: EmployeeActions)
    ensures
        r@ == line_command(line@),
{
    let parts = split_at_char(line, ' ');
    let n = parts.len();
    if n == 0 {
        EmployeeActions::Repeat(String::from_str("No data was entered"))
    } else if n == 1 {
        get_single_action(parts[0])
    } else if n == 2 {
        EmployeeActions::Repeat(String::from_str("Insufficient data entered"))
    } else if n <= 4 {
        get_details_action(parts.as_slice())
    } else {
        EmployeeActions::Repeat(String::from_str("Too much data entered"))
    }
}

/// A department and its employees in the order they were added.
#[derive(Debug)]
pub struct Department {
    pub name: String,
    pub employees: Vec<String>,
}

/// The names of a list of employees.
pub open spec fn names_of(v: Seq<String>) -> Seq<Seq<char>> {
    v.map_values(|e: String| e@)
}

impl View for Department {
    type V = (Seq<char>, Seq<Seq<char>>);

    open spec fn view(&self) -> (Seq<char>, Seq<Seq<char>>) {
        (self.name@, names_of(self.employees@))
    }
}

/// The registry as a sequence of departments, each with its employees.
pub type Registry = Seq<(Seq<char>, Seq<Seq<char>>)>;

/// No department appears twice, and none is empty.
pub open spec fn registry_wf(reg: Registry) -> bool {
    &&& forall|i: int, j: int|
        0 <= i < reg.len() && 0 <= j < reg.len() && i != j ==> #[trigger] reg[i].0
            != #[trigger] reg[j].0
    &&& forall|i: int| 0 <= i < reg.len() ==> #[trigger] reg[i].1.len() > 0
}

pub open spec fn has_department(reg: Registry, department: Seq<char>) -> bool {
    exists|i: int| 0 <= i < reg.len() && #[trigger] reg[i].0 == department
}

/// The position of a department that the registry holds.
pub open spec fn department_index(reg: Registry, department: Seq<char>) -> int {
    choose|i: int| 0 <= i < reg.len() && #[trigger] reg[i].0 == department
}

/// The employees of a department, none if the registry does not hold it.
pub open spec fn employees_in(reg: Registry, department: Seq<char>) -> Seq<Seq<char>> {
    if has_department(reg, department) {
        reg[department_index(reg, department)].1
    } else {
        Seq::empty()
    }
}

proof fn lemma_department_index(reg: Registry, department: Seq<char>, i: int)
    requires
        registry_wf(reg),
        0 <= i < reg.len(),
        reg[i].0 == department,
    ensures
        has_department(reg, department),
        department_index(reg, department) == i,
{
    assert(has_department(reg, department));
    let j = department_index(reg, department);
    assert(reg[j].0 == department);
}

/// `name` added at the end of its department, which is created if absent.
pub open spec fn registry_add(reg: Registry, name: Seq<char>, department: Seq<char>) -> Registry {
    if has_department(reg, department) {
        let i = department_index(reg, department);
        reg.update(i, (department, reg[i].1.push(name)))
    } else {
        reg.push((department, seq![name]))
    }
}

/// `list` without the first occurrence of `name`, if it holds one.
pub open spec fn without_first(list: Seq<Seq<char>>, name: Seq<char>) -> Seq<Seq<char>> {
    if list.contains(name) {
        let j = choose|j: int|
            0 <= j < list.len() && list[j] == name && forall|k: int|
                0 <= k < j ==> #[trigger] list[k] != name;
        list.remove(j)
    } else {
        list
    }
}

/// The first `name` removed from its department; a department left empty
/// is removed too.
pub open spec fn registry_remove(reg: Registry, name: Seq<char>, department: Seq<char>) -> Registry {
    if has_department(reg, department) {
        let i = department_index(reg, department);
        let rest = without_first(reg[i].1, name);
        if rest.len() == 0 {
            reg.remove(i)
        } else {
            reg.update(i, (department, rest))
        }
    } else {
        reg
    }
}

/// The registry after a command: only `Add` and `Remove` change it.
pub open spec fn registry_after(reg: Registry, c: Command) -> Registry {
    match c {
        Command::Add(name, department) => registry_add(reg, name, department),
        Command::Remove(name, department) => registry_remove(reg, name, department),
        _ => reg,
    }
}

proof fn lemma_first_index(list: Seq<Seq<char>>, name: Seq<char>, j: int)
    requires
        0 <= j < list.len(),
        list[j] == name,
        forall|k: int| 0 <= k < j ==> list[k] != name,
    ensures
        without_first(list, name) == list.remove(j),
{
    assert(list.contains(name));
    let c = choose|c: int|
        0 <= c < list.len() && list[c] == name && forall|k: int|
            0 <= k < c ==> #[trigger] list[k] != name;
    if c < j {
        assert(list[c] != name);
    } else if c > j {
        assert(list[j] != name);
    }
}

/// The first position of `name` in `list`.
fn position_of(list: &Vec<String>, name: &str) -> (r: Option<usize>)
    ensures
        r is None ==> !names_of(list@).contains(name@),
        r matches Some(j) ==> j < list@.len() && names_of(list@)[j as int] == name@ && forall|
            k: int,
        | 0 <= k < j ==> names_of(list@)[k] != name@,
{
    let mut j: usize = 0;
    while j < list.len()
        invariant
            j <= list@.len(),
            forall|k: int| 0 <= k < j ==> names_of(list@)[k] != name@,
        decreases list@.len() - j,
    {
        if same_text(list[j].as_str(), name) {
            return Some(j);
        }
        j = j + 1;
    }
    None
}

/// What a session of commands does after one of them.
#[derive(Debug)]
pub enum SessionStep {
    /// Read the next command.
    Continue,
    /// Tell the user why the command was not carried out, then read the next.
    Retry(String),
    /// Stop reading and show the registry.
    Display,
    /// Stop reading and show nothing.
    Quit,
}

/// A `SessionStep` with its message as characters.
pub enum Step {
    Continue,
    Retry(Seq<char>),
    Display,
    Quit,
}

impl View for SessionStep {
    type V = Step;

    open spec fn view(&self) -> Step {
        match self {
            SessionStep::Continue => Step::Continue,
            SessionStep::Retry(m) => Step::Retry(m@),
            SessionStep::Display => Step::Display,
            SessionStep::Quit => Step::Quit,
        }
    }
}

/// How a session goes on after a command.
pub open spec fn step_after(c: Command) -> Step {
    match c {
        Command::Add(..) | Command::Remove(..) => Step::Continue,
        Command::Repeat(m) => Step::Retry(m),
        Command::Display => Step::Display,
        Command::Quit => Step::Quit,
    }
}

/// Adding an employee to a department that the registry does not hold, then
/// removing that employee from it, gives back the registry as it was: the
/// department is gone again.
pub proof fn lemma_add_then_remove(reg: Registry, name: Seq<char>, department: Seq<char>)
    requires
        registry_wf(reg),
        !has_department(reg, department),
    ensures
        registry_remove(registry_add(reg, name, department), name, department) == reg,
        !has_department(registry_remove(registry_add(reg, name, department), name, department), department),
{
    let added = registry_add(reg, name, department);
    assert(added == reg.push((department, seq![name])));
    let i = reg.len() as int;
    assert(added[i].0 == department);
    assert(registry_wf(added)) by {
        assert forall|a: int, b: int|
            0 <= a < added.len() && 0 <= b < added.len() && a != b implies #[trigger] added[a].0
            != #[trigger] added[b].0 by {
            if a == i {
                assert(reg[b].0 != department);
            } else if b == i {
                assert(reg[a].0 != department);
            }
        }
    }
    lemma_department_index(added, department, i);
    lemma_first_index(seq![name], name, 0);
    assert(seq![name].remove(0).len() == 0);
    assert(added.remove(i) =~= reg);
}

/// Only `Add` and `Remove` change the registry: after any other command,
/// `Display` included, the registry and so what is shown of it stay the same,
/// however often it comes.
pub proof fn lemma_other_commands_keep_registry(reg: Registry, c: Command)
    requires
        !(c is Add),
        !(c is Remove),
    ensures
        registry_after(reg, c) == reg,
        registry_after(registry_after(reg, c), c) == reg,
{
}

/// Departments and their employees, for one session of commands.
pub struct Company {
    departments: Vec<Department>,
}

impl View for Company {
    type V = Registry;

    closed spec fn view(&self) -> Registry {
        self.departments@.map_values(|d: Department| d@)
    }
}

impl Company {
    pub open spec fn wf(&self) -> bool {
        registry_wf(self@)
    }

    /// A registry with no department.
    pub fn new() -> (r: Company)
        ensures
            r.wf(),
            r@ == Registry::empty(),
    {
        let r = Company { departments: Vec::new() };
        assert(r@ =~= Registry::empty());
        r
    }

    /// The departments, in the order they were created.
    pub fn departments(&self) -> (r: &Vec<Department>)
        ensures
            r@.map_values(|d: Department| d@) == self@,
    {
        &self.departments
    }

    /// The position of `department`, if the registry holds it.
    fn find_department(&self, department: &str) -> (r: Option<usize>)
        requires
            self.wf(),
        ensures
            r is None <==> !has_department(self@, department@),
            r matches Some(i) ==> i < self@.len() && i == department_index(self@, department@),
    {
        let mut i: usize = 0;
        while i < self.departments.len()
            invariant
                self.wf(),
                i <= self.departments@.len(),
                forall|k: int| 0 <= k < i ==> #[trigger] self@[k].0 != department@,
            decreases self.departments@.len() - i,
        {
            if same_text(self.departments[i].name.as_str(), department) {
                assert(self@[i as int].0 == department@);
                proof {
                    lemma_department_index(self@, department@, i as int);
                }
                return Some(i);
            }
            i = i + 1;
        }
        None
    }

    /// Adds `details.name` at the end of `details.department`, creating the
    /// department if the registry does not hold it.
    pub fn add(&mut self, details: EmployeeDetails)
        requires
            old(self).wf(),
        ensures
            final(self).wf(),
            final(self)@ == registry_add(old(self)@, details.name@, details.department@),
    {
        let ghost reg = self@;
        let ghost deps = self.departments@;
        match self.find_department(details.department.as_str()) {
            Some(i) => {
                let mut dept = self.departments.remove(i);
                let ghost names = names_of(dept.employees@);
                dept.employees.push(details.name);
                assert(names_of(dept.employees@) =~= names.push(details.name@));
                self.departments.insert(i, dept);
                assert(self.departments@ =~= deps.update(i as int, dept));
                assert(self@ =~= reg.update(i as int, (details.department@, reg[i as int].1.push(details.name@))));
            },
            None => {
                let mut employees: Vec<String> = Vec::new();
                employees.push(details.name);
                let dept = Department { name: details.department, employees };
                assert(names_of(dept.employees@) =~= seq![details.name@]);
                self.departments.push(dept);
                assert(self@ =~= reg.push((details.department@, seq![details.name@])));
            },
        }
    }

    /// Removes the first `details.name` from `details.department`, and the
    /// department itself once it has no employee left.
    pub fn remove(&mut self, details: EmployeeDetails)
        requires
            old(self).wf(),
        ensures
            final(self).wf(),
            final(self)@ == registry_remove(old(self)@, details.name@, details.department@),
    {
        let ghost reg = self@;
        let ghost deps = self.departments@;
        match self.find_department(details.department.as_str()) {
            Some(i) => {
                let mut dept = self.departments.remove(i);
                let ghost names = names_of(dept.employees@);
                assert(names == reg[i as int].1);
                match position_of(&dept.employees, details.name.as_str()) {
                    Some(j) => {
                        dept.employees.remove(j);
                        proof {
                            lemma_first_index(names, details.name@, j as int);
                        }
                        assert(names_of(dept.employees@) =~= names.remove(j as int));
                    },
                    None => {},
                }
                assert(names_of(dept.employees@) == without_first(names, details.name@));
                if dept.employees.len() > 0 {
                    self.departments.insert(i, dept);
                    assert(self.departments@ =~= deps.update(i as int, dept));
                    assert(self@ =~= reg.update(i as int, (details.department@, names_of(dept.employees@))));
                } else {
                    assert(self.departments@ =~= deps.remove(i as int));
                    assert(self@ =~= reg.remove(i as int));
                }
            },
            None => {},
        }
    }

    /// Carries out one command and says how the session goes on.
    pub fn apply(&mut self, action: EmployeeActions) -> (step: SessionStep)
        requires
            old(self).wf(),
        ensures
            final(self).wf(),
            final(self)@ == registry_after(old(self)@, action@),
            step@ == step_after(action@),
    {
        match action {
            EmployeeActions::Add(employee) => {
                self.add(employee);
                SessionStep::Continue
            },
            EmployeeActions::Remove(employee) => {
                self.remove(employee);
                SessionStep::Continue
            },
            EmployeeActions::Display => SessionStep::Display,
            EmployeeActions::Quit => SessionStep::Quit,
            EmployeeActions::Repeat(message) => SessionStep::Retry(message),
        }
    }

    /// The employees of `department`, in the order they were added.
    pub fn employees_of(&self, department: &str) -> (r: Option<&Vec<String>>)
        requires
            self.wf(),
        ensures
            r is None <==> !has_department(self@, department@),
            r matches Some(v) ==> names_of(v@) == employees_in(self@, department@),
    {
        match self.find_department(department) {
            Some(i) => Some(&self.departments[i].employees),
            None => None,
        }
    }
}

} // verus!
