//! The programs that the scrape script needs.

use crate::text::{blank, is_blank, string_view, white_space};
use vstd::prelude::*;
use vstd::string::*;

verus! {

/// A program of Node.js.
#[derive(Clone, Copy, Debug, PartialEq, Eq, Structural)]
pub enum Program {
    /// The interpreter.
    Node,
    /// The package manager.
    Npm,
}

impl Program {
    /// The environment variable that names the program.
    pub open spec fn var_name(self) -> Seq<char> {
        match self {
            Program::Node => "NODE"@,
            Program::Npm => "NPM"@,
        }
    }

    /// The places where the program is looked for, the first one first.
    pub open spec fn places(self) -> Seq<Seq<char>> {
        match self {
            Program::Node => seq![
                "/opt/homebrew/bin/node"@,
                "/usr/local/bin/node"@,
                "/usr/bin/node"@,
            ],
            Program::Npm => seq![
                "/opt/homebrew/bin/npm"@,
                "/usr/local/bin/npm"@,
                "/usr/bin/npm"@,
            ],
        }
    }

    /// The message for the user where the program is missing.
    pub open spec fn missing_text(self) -> Seq<char> {
        match self {
            Program::Node => "node not found; install Node.js or set NODE"@,
            Program::Npm => "npm not found; install Node.js or set NPM"@,
        }
    }

    /// The environment variable that names the program.
    pub fn var(&self) -> (res: &'static str)
        ensures
            res@ == self.var_name(),
    {
        match self {
            Program::Node => "NODE",
            Program::Npm => "NPM",
        }
    }

    /// The places where the program is looked for, the first one first.
    pub fn candidates(&self) -> (res: Vec<&'static str>)
        ensures
            res@.map_values(|place: &'static str| place@) == self.places(),
    {
        let places: Vec<&'static str> = match self {
            Program::Node => vec![
                "/opt/homebrew/bin/node",
                "/usr/local/bin/node",
                "/usr/bin/node",
            ],
            Program::Npm => vec!["/opt/homebrew/bin/npm", "/usr/local/bin/npm", "/usr/bin/npm"],
        };
        assert(places@.map_values(|place: &'static str| place@) =~= self.places());
        places
    }

    /// The message for the user where the program is missing.
    pub fn missing_message(&self) -> (res: String)
        ensures
            res@ == self.missing_text(),
    {
        match self {
            Program::Node => "node not found; install Node.js or set NODE".to_owned(),
            Program::Npm => "npm not found; install Node.js or set NPM".to_owned(),
        }
    }
}

/// The first of `places` that is marked in `present`.
pub open spec fn first_present(places: Seq<Seq<char>>, present: Seq<bool>) -> Option<Seq<char>>
    decreases places.len(),
{
    if places.len() == 0 || present.len() == 0 {
        None
    } else if present[0] {
        Some(places[0])
    } else {
        first_present(places.skip(1), present.skip(1))
    }
}

/// Where a program is: what its variable says, unless that is missing or blank, else the first of
/// its places where there is a file.
pub open spec fn located(
    program: Program,
    var: Option<Seq<char>>,
    present: Seq<bool>,
) -> Option<Seq<char>> {
    match var {
        Some(path) if !blank(path) => Some(path),
        _ => first_present(program.places(), present),
    }
}

/// Whether `res` is the path that `found` gives, or says that `program` is missing.
pub open spec fn reports(
    res: Result<String, Program>,
    found: Option<Seq<char>>,
    program: Program,
) -> bool {
    match found {
        Some(path) => res matches Ok(text) && text@ == path,
        None => res == Err::<String, Program>(program),
    }
}

/// Where `program` is, by the value of its variable and by whether there is a file at each of its
/// candidates.
pub fn locate(program: Program, var: Option<String>, present: &Vec<bool>) -> (res: Result<
    String,
    Program,
>)
    ensures
        reports(res, located(program, string_view(var), present@), program),
{
    if let Some(path) = var {
        if !is_blank(path.as_str()) {
            return Ok(path);
        }
    }
    let candidates = program.candidates();
    let ghost places = program.places();
    let mut i: usize = 0;
    assert(places.skip(0) =~= places);
    assert(present@.skip(0) =~= present@);
    while i < candidates.len() && i < present.len()
        invariant
            candidates@.map_values(|place: &'static str| place@) == places,
            places == program.places(),
            i <= candidates@.len(),
            i <= present@.len(),
            first_present(places, present@) == first_present(
                places.skip(i as int),
                present@.skip(i as int),
            ),
            located(program, string_view(var), present@) == first_present(places, present@),
        decreases candidates@.len() - i,
    {
        assert(places.skip(i as int)[0] == candidates@.map_values(
            |place: &'static str| place@,
        )[i as int]);
        assert(present@.skip(i as int)[0] == present@[i as int]);
        if present[i] {
            return Ok(candidates[i].to_owned());
        }
        assert(places.skip(i as int).skip(1) =~= places.skip(i + 1));
        assert(present@.skip(i as int).skip(1) =~= present@.skip(i + 1));
        i = i + 1;
    }
    assert(candidates@.map_values(|place: &'static str| place@).len() == candidates@.len());
    Err(program)
}

/// Where the interpreter of Node.js is.
pub fn which_node(var: Option<String>, present: &Vec<bool>) -> (res: Result<String, Program>)
    ensures
        reports(res, located(Program::Node, string_view(var), present@), Program::Node),
{
    locate(Program::Node, var, present)
}

/// Where the package manager of Node.js is.
pub fn which_npm(var: Option<String>, present: &Vec<bool>) -> (res: Result<String, Program>)
    ensures
        reports(res, located(Program::Npm, string_view(var), present@), Program::Npm),
{
    locate(Program::Npm, var, present)
}

/// A variable that is set decides, wherever the program is installed; it is taken as it is.
pub proof fn law_variable_decides(
    program: Program,
    var: Seq<char>,
    present: Seq<bool>,
)
    requires
        !blank(var),
    ensures
        located(program, Some(var), present) == Some(var),
{
}

/// Without a variable, the first place with a file is taken.
pub proof fn law_first_file_is_taken(program: Program, present: Seq<bool>, at: int)
    requires
        present.len() == program.places().len(),
        0 <= at < present.len(),
        present[at],
        forall|j: int| 0 <= j < at ==> !#[trigger] present[j],
    ensures
        located(program, None, present) == Some(program.places()[at]),
{
    lemma_first_present(program.places(), present, at);
}

/// Without a variable and without a file at any place, the program is missing.
pub proof fn law_no_file_no_program(program: Program, present: Seq<bool>)
    requires
        forall|j: int| 0 <= j < present.len() ==> !#[trigger] present[j],
    ensures
        located(program, None, present) is None,
{
    lemma_none_present(program.places(), present);
}

proof fn lemma_first_present(places: Seq<Seq<char>>, present: Seq<bool>, at: int)
    requires
        places.len() == present.len(),
        0 <= at < present.len(),
        present[at],
        forall|j: int| 0 <= j < at ==> !#[trigger] present[j],
    ensures
        first_present(places, present) == Some(places[at]),
    decreases at,
{
    if at > 0 {
        assert(!present[0]);
        let rest = present.skip(1);
        assert forall|j: int| 0 <= j < at - 1 implies !#[trigger] rest[j] by {
            assert(rest[j] == present[j + 1]);
        }
        lemma_first_present(places.skip(1), rest, at - 1);
    }
}

proof fn lemma_none_present(places: Seq<Seq<char>>, present: Seq<bool>)
    requires
        forall|j: int| 0 <= j < present.len() ==> !#[trigger] present[j],
    ensures
        first_present(places, present) is None,
    decreases places.len(),
{
    if places.len() > 0 && present.len() > 0 {
        assert(!present[0]);
        let rest = present.skip(1);
        assert forall|j: int| 0 <= j < rest.len() implies !#[trigger] rest[j] by {
            assert(rest[j] == present[j + 1]);
        }
        lemma_none_present(places.skip(1), rest);
    }
}

/// A variable that is missing or blank plays no part.
pub proof fn law_blank_variable_is_none(program: Program, var: Seq<char>, present: Seq<bool>)
    requires
        forall|i: int| 0 <= i < var.len() ==> white_space(#[trigger] var[i]),
    ensures
        located(program, Some(var), present) == located(program, None, present),
{
}

/// The places of a program, the first one first: they differ in the name of the program alone.
pub proof fn law_places_of_programs(program: Program, at: int)
    requires
        0 <= at < 3,
    ensures
        program.places().len() == 3,
        program.places()[at] == (if at == 0 {
            "/opt/homebrew/bin/"@
        } else if at == 1 {
            "/usr/local/bin/"@
        } else {
            "/usr/bin/"@
        }) + (if program is Node {
            "node"@
        } else {
            "npm"@
        }),
{
    reveal_strlit("/opt/homebrew/bin/");
    reveal_strlit("/usr/local/bin/");
    reveal_strlit("/usr/bin/");
    reveal_strlit("node");
    reveal_strlit("npm");
    reveal_strlit("/opt/homebrew/bin/node");
    reveal_strlit("/usr/local/bin/node");
    reveal_strlit("/usr/bin/node");
    reveal_strlit("/opt/homebrew/bin/npm");
    reveal_strlit("/usr/local/bin/npm");
    reveal_strlit("/usr/bin/npm");
    assert("/opt/homebrew/bin/"@ + "node"@ =~= "/opt/homebrew/bin/node"@);
    assert("/usr/local/bin/"@ + "node"@ =~= "/usr/local/bin/node"@);
    assert("/usr/bin/"@ + "node"@ =~= "/usr/bin/node"@);
    assert("/opt/homebrew/bin/"@ + "npm"@ =~= "/opt/homebrew/bin/npm"@);
    assert("/usr/local/bin/"@ + "npm"@ =~= "/usr/local/bin/npm"@);
    assert("/usr/bin/"@ + "npm"@ =~= "/usr/bin/npm"@);
}

/// What is reported is the path that was found, unchanged, or that the program is missing.
pub proof fn law_reports_what_was_found(
    res: Result<String, Program>,
    found: Option<Seq<char>>,
    program: Program,
)
    requires
        reports(res, found, program),
    ensures
        res is Ok <==> found is Some,
        res matches Ok(path) ==> found == Some(path@),
        res matches Err(missing) ==> missing == program,
{
}

/// The variables that name the programs.
pub proof fn law_variables_of_programs()
    ensures
        Program::Node.var_name() == "NODE"@,
        Program::Npm.var_name() == "NPM"@,
{
}

} // verus!
