//! Building the commands of each phase of a test from its templates.

use vstd::prelude::*;
use crate::error::ArrError;
use crate::model::{AtomicReadTeamTechnique, AtomicTest, defaults_view, opt_text};
use crate::template::{
    outcome_matches, parse_commands, resolve_commands, resolve_store, store_view, update_path,
};

verus! {

/// Each template resolved in turn; the first one that fails gives the error.
pub open spec fn resolve_each(
    ts: Seq<Seq<char>>,
    path: Seq<char>,
    vars: Seq<(Seq<char>, Seq<char>)>,
) -> Result<Seq<Seq<char>>, Seq<char>>
    decreases ts.len(),
{
    if ts.len() == 0 {
        Ok(Seq::empty())
    } else {
        match resolve_each(ts.drop_last(), path, vars) {
            Err(n) => Err(n),
            Ok(done) => match resolve_commands(ts.last(), path, vars) {
                Ok(c) => Ok(done.push(c)),
                Err(n) => Err(n),
            },
        }
    }
}

/// The check templates (`check`) or the install templates of the dependencies.
pub open spec fn dependency_templates(deps: Seq<crate::model::AtomicDependency>, check: bool) -> Seq<
    Seq<char>,
> {
    deps.map_values(
        |d: crate::model::AtomicDependency|
            if check {
                d.prereq_command@
            } else {
                d.get_prereq_command@
            },
    )
}

/// The commands of the check phase (`check`) or of the dependency phase, each
/// with the dependency executor: one per dependency, none where the test
/// names no dependency executor or has no dependencies.
pub open spec fn phase_commands(
    test: AtomicTest,
    check: bool,
    path: Seq<char>,
    vars: Seq<(Seq<char>, Seq<char>)>,
) -> Result<Seq<(Seq<char>, Seq<char>)>, Seq<char>> {
    if test.dependency_executor_name is Some && test.dependencies is Some {
        let e = test.dependency_executor_name->Some_0;
        let deps = test.dependencies->Some_0;
        match resolve_each(dependency_templates(deps@, check), path, vars) {
            Ok(cs) => Ok(cs.map_values(|c: Seq<char>| (c, e@))),
            Err(n) => Err(n),
        }
    } else {
        Ok(Seq::empty())
    }
}

/// An executable list of commands agrees with a modelled one.
pub open spec fn commands_match(
    r: Result<Vec<(String, String)>, ArrError>,
    m: Result<Seq<(Seq<char>, Seq<char>)>, Seq<char>>,
) -> bool {
    match (r, m) {
        (Ok(v), Ok(cs)) => store_view(v@) == cs,
        (Err(ArrError::ArgValueNotFound(a)), Err(n)) => a@ == n,
        _ => false,
    }
}

/// An executable command and executor agree with a modelled command.
pub open spec fn command_matches(
    r: Result<(String, String), ArrError>,
    m: Result<Seq<char>, Seq<char>>,
    executor: Seq<char>,
) -> bool {
    match (r, m) {
        (Ok((c, e)), Ok(t)) => c@ == t && e@ == executor,
        (Err(ArrError::ArgValueNotFound(a)), Err(n)) => a@ == n,
        _ => false,
    }
}

/// The variable store of a run: the test's defaults, then the overrides,
/// each value with the reserved path token resolved.
pub open spec fn run_store(
    test: AtomicTest,
    overrides: Seq<(Seq<char>, Seq<char>)>,
    path: Seq<char>,
) -> Seq<(Seq<char>, Seq<char>)> {
    resolve_store(defaults_view(test) + overrides, path)
}

/// Builds the variable store of a run from the defaults that the test
/// declares and the caller's overrides, which win on the same name.
pub fn gather_args(
    yaml: &AtomicReadTeamTechnique,
    vars: &Vec<(String, String)>,
    test_num: usize,
    atomics_dir: &str,
) -> (r: Vec<(String, String)>)
    requires
        test_num < yaml.atomic_tests.len(),
    ensures
        store_view(r@) == run_store(yaml.atomic_tests@[test_num as int], store_view(vars@), atomics_dir@),
{
    let test = &yaml.atomic_tests[test_num];
    let ghost raw = defaults_view(*test) + store_view(vars@);
    let ghost want = resolve_store(raw, atomics_dir@);
    let mut r: Vec<(String, String)> = Vec::new();
    let mut i: usize = 0;
    let nd = test.input_arguments.len();
    while i < nd
        invariant
            nd == test.input_arguments.len(),
            raw == defaults_view(*test) + store_view(vars@),
            want == resolve_store(raw, atomics_dir@),
            i <= nd,
            r@.len() == i,
            want.len() == raw.len(),
            raw.len() == nd + vars@.len(),
            store_view(r@) == want.subrange(0, i as int),
        decreases nd - i,
    {
        let name = test.input_arguments[i].0.clone();
        let value = update_path(atomics_dir, test.input_arguments[i].1.default.as_str());
        assert(raw[i as int] == (test.input_arguments@[i as int].0@,
            test.input_arguments@[i as int].1.default@));
        assert(want[i as int] == (name@, value@));
        let ghost old_r = r@;
        r.push((name, value));
        assert(forall|m: int| 0 <= m < i ==> store_view(r@)[m] == store_view(old_r)[m]);
        i += 1;
        assert(store_view(r@) =~= want.subrange(0, i as int));
    }
    let mut k: usize = 0;
    while k < vars.len()
        invariant
            nd == test.input_arguments.len(),
            nd == defaults_view(*test).len(),
            raw == defaults_view(*test) + store_view(vars@),
            want == resolve_store(raw, atomics_dir@),
            k <= vars.len(),
            r@.len() == nd + k,
            want.len() == raw.len(),
            raw.len() == nd + vars@.len(),
            store_view(r@) == want.subrange(0, nd + k),
        decreases vars.len() - k,
    {
        let name = vars[k].0.clone();
        let value = update_path(atomics_dir, vars[k].1.as_str());
        assert(raw[nd + k] == (vars@[k as int].0@, vars@[k as int].1@));
        assert(want[nd + k] == (name@, value@));
        let ghost old_r = r@;
        r.push((name, value));
        assert(forall|m: int| 0 <= m < nd + k ==> store_view(r@)[m] == store_view(old_r)[m]);
        k += 1;
        assert(store_view(r@) =~= want.subrange(0, nd + k));
    }
    assert(want.subrange(0, nd + vars.len()) =~= want);
    r
}

proof fn lemma_resolve_each_prefix_err(
    ts: Seq<Seq<char>>,
    k: int,
    path: Seq<char>,
    vars: Seq<(Seq<char>, Seq<char>)>,
)
    requires
        0 <= k <= ts.len(),
        resolve_each(ts.subrange(0, k), path, vars) is Err,
    ensures
        resolve_each(ts, path, vars) == resolve_each(ts.subrange(0, k), path, vars),
    decreases ts.len() - k,
{
    if k == ts.len() {
        assert(ts.subrange(0, k) =~= ts);
    } else {
        assert(ts.subrange(0, k + 1).drop_last() =~= ts.subrange(0, k));
        lemma_resolve_each_prefix_err(ts, k + 1, path, vars);
    }
}

/// The commands of the check phase (`check`) or of the dependency phase.
fn dependency_commands(
    yaml: &AtomicReadTeamTechnique,
    test_num: usize,
    atomics_dir: &str,
    vars: &Vec<(String, String)>,
    check: bool,
) -> (r: Result<Vec<(String, String)>, ArrError>)
    requires
        test_num < yaml.atomic_tests.len(),
    ensures
        commands_match(
            r,
            phase_commands(yaml.atomic_tests@[test_num as int], check, atomics_dir@, store_view(vars@)),
        ),
{
    let test = &yaml.atomic_tests[test_num];
    let mut commands: Vec<(String, String)> = Vec::new();
    if let Some(dependency_executor) = &test.dependency_executor_name {
        if let Some(dependencies) = &test.dependencies {
            let ghost ts = dependency_templates(dependencies@, check);
            let ghost store = store_view(vars@);
            let ghost mut done: Seq<Seq<char>> = Seq::empty();
            let mut k: usize = 0;
            assert(ts.subrange(0, 0) =~= Seq::<Seq<char>>::empty());
            while k < dependencies.len()
                invariant
                    ts == dependency_templates(dependencies@, check),
                    store == store_view(vars@),
                    k <= dependencies.len(),
                    resolve_each(ts.subrange(0, k as int), atomics_dir@, store) == Ok::<
                        Seq<Seq<char>>,
                        Seq<char>,
                    >(done),
                    store_view(commands@) == done.map_values(
                        |c: Seq<char>| (c, dependency_executor@),
                    ),
                    commands@.len() == k,
                    done.len() == k,
                    test_num < yaml.atomic_tests.len(),
                    *test == yaml.atomic_tests@[test_num as int],
                    test.dependency_executor_name == Some(*dependency_executor),
                    test.dependencies == Some(*dependencies),
                decreases dependencies.len() - k,
            {
                let ghost pre = ts.subrange(0, k as int + 1);
                assert(pre.drop_last() =~= ts.subrange(0, k as int));
                let dependency = &dependencies[k];
                let template = if check {
                    dependency.prereq_command.as_str()
                } else {
                    dependency.get_prereq_command.as_str()
                };
                assert(pre.last() == template@);
                match parse_commands(template, atomics_dir, vars) {
                    Err(e) => {
                        assert(resolve_each(pre, atomics_dir@, store) == Err::<Seq<Seq<char>>, Seq<char>>(
                            resolve_commands(template@, atomics_dir@, store)->Err_0,
                        ));
                        proof {
                            lemma_resolve_each_prefix_err(ts, k as int + 1, atomics_dir@, store);
                        }
                        return Err(e);
                    },
                    Ok(command) => {
                        let ghost c = command@;
                        let ghost old_commands = commands@;
                        let ex = dependency_executor.clone();
                        commands.push((command, ex));
                        proof {
                            let old_done = done;
                            done = done.push(c);
                            assert(resolve_each(pre, atomics_dir@, store) == Ok::<Seq<Seq<char>>, Seq<char>>(done));
                            assert forall|m: int| 0 <= m < done.len() implies store_view(commands@)[m] == done.map_values(
                                |c: Seq<char>| (c, dependency_executor@),
                            )[m] by {
                                if m < old_done.len() {
                                    assert(commands@[m] == old_commands[m]);
                                    assert(store_view(old_commands)[m] == old_done.map_values(
                                        |c: Seq<char>| (c, dependency_executor@),
                                    )[m]);
                                }
                            }
                            assert(store_view(commands@) =~= done.map_values(
                                |c: Seq<char>| (c, dependency_executor@),
                            ));
                        }
                        k += 1;
                    },
                }
            }
            assert(ts.subrange(0, dependencies.len() as int) =~= ts);
        } else {
            assert(store_view(commands@) =~= Seq::<(Seq<char>, Seq<char>)>::empty());
        }
    } else {
        assert(store_view(commands@) =~= Seq::<(Seq<char>, Seq<char>)>::empty());
    }
    Ok(commands)
}

/// The commands of the check phase: each dependency's check template, resolved.
pub fn get_check_command(
    yaml: &AtomicReadTeamTechnique,
    test_num: usize,
    atomics_dir: &str,
    vars: &Vec<(String, String)>,
) -> (r: Result<Vec<(String, String)>, ArrError>)
    requires
        test_num < yaml.atomic_tests.len(),
    ensures
        commands_match(
            r,
            phase_commands(yaml.atomic_tests@[test_num as int], true, atomics_dir@, store_view(vars@)),
        ),
{
    dependency_commands(yaml, test_num, atomics_dir, vars, true)
}

/// The commands of the dependency phase: each dependency's install template,
/// resolved.
pub fn get_dependency_command(
    yaml: &AtomicReadTeamTechnique,
    test_num: usize,
    atomics_dir: &str,
    vars: &Vec<(String, String)>,
) -> (r: Result<Vec<(String, String)>, ArrError>)
    requires
        test_num < yaml.atomic_tests.len(),
    ensures
        commands_match(
            r,
            phase_commands(yaml.atomic_tests@[test_num as int], false, atomics_dir@, store_view(vars@)),
        ),
{
    dependency_commands(yaml, test_num, atomics_dir, vars, false)
}

/// The attack command with the test's executor; an absent template is an
/// empty command.
pub fn get_attack_command(
    yaml: &AtomicReadTeamTechnique,
    test_num: usize,
    atomics_dir: &str,
    vars: &Vec<(String, String)>,
) -> (r: Result<(String, String), ArrError>)
    requires
        test_num < yaml.atomic_tests.len(),
    ensures
        command_matches(
            r,
            resolve_commands(
                opt_text(yaml.atomic_tests@[test_num as int].executor.command),
                atomics_dir@,
                store_view(vars@),
            ),
            yaml.atomic_tests@[test_num as int].executor.name@,
        ),
{
    let executor = &yaml.atomic_tests[test_num].executor;
    let resolved = match &executor.command {
        Some(c) => parse_commands(c.as_str(), atomics_dir, vars),
        None => {
            let empty = String::new();
            parse_commands(empty.as_str(), atomics_dir, vars)
        },
    };
    match resolved {
        Ok(command) => Ok((command, executor.name.clone())),
        Err(e) => Err(e),
    }
}

/// The cleanup command with the test's executor; an absent template is an
/// empty command.
pub fn get_cleanup_command(
    yaml: &AtomicReadTeamTechnique,
    test_num: usize,
    atomics_dir: &str,
    vars: &Vec<(String, String)>,
) -> (r: Result<(String, String), ArrError>)
    requires
        test_num < yaml.atomic_tests.len(),
    ensures
        command_matches(
            r,
            resolve_commands(
                opt_text(yaml.atomic_tests@[test_num as int].executor.cleanup_command),
                atomics_dir@,
                store_view(vars@),
            ),
            yaml.atomic_tests@[test_num as int].executor.name@,
        ),
{
    let executor = &yaml.atomic_tests[test_num].executor;
    let resolved = match &executor.cleanup_command {
        Some(c) => parse_commands(c.as_str(), atomics_dir, vars),
        None => {
            let empty = String::new();
            parse_commands(empty.as_str(), atomics_dir, vars)
        },
    };
    match resolved {
        Ok(command) => Ok((command, executor.name.clone())),
        Err(e) => Err(e),
    }
}

} // verus!
