//! The text of `vikar plan`: one line per task, nested tasks indented.
use vstd::prelude::*;

use crate::config::{display_name_of, ModelConfig, Playbook, TaskConfig};
use crate::text::{decimal_nat, unsigned_decimal_string};

verus! {

/// A `register:` name, or `-` when there is none.
pub open spec fn register_or_dash(r: Option<String>) -> Seq<char> {
    match r {
        Some(s) => s@,
        None => "-"@,
    }
}

/// The plan line describing one task.
pub open spec fn kind_line(t: TaskConfig) -> Seq<char> {
    match t {
        TaskConfig::Ask { model, register, .. } => "[ask]   name="@ + display_name_of(t)
            + " model="@ + model@ + " register="@ + register_or_dash(register),
        TaskConfig::Run { command, register, .. } => "[run]   name="@ + display_name_of(t)
            + " command=`"@ + command@ + "` register="@ + register_or_dash(register),
        TaskConfig::Until { condition, max_iterations, tasks, .. } => "[until] name="@
            + display_name_of(t) + " condition=`"@ + condition@ + "` max_iterations="@
            + decimal_nat(max_iterations as nat) + " ("@ + decimal_nat(tasks@.len())
            + " nested task(s))"@,
    }
}

/// `depth` levels of two-space indentation.
pub open spec fn indent(depth: nat) -> Seq<char>
    decreases depth,
{
    if depth == 0 {
        Seq::empty()
    } else {
        indent((depth - 1) as nat) + seq![' ', ' ']
    }
}

/// One numbered, indented plan entry.
pub open spec fn plan_entry(line: Seq<char>, depth: nat, index: nat) -> Seq<char> {
    indent(depth) + decimal_nat(index) + ". "@ + line
}

/// The entries of the tasks nested in an `until` task, at depth 2.
pub open spec fn nested_entries(ts: Seq<TaskConfig>) -> Seq<Seq<char>>
    decreases ts.len(),
{
    if ts.len() == 0 {
        Seq::empty()
    } else {
        nested_entries(ts.drop_last()).push(plan_entry(kind_line(ts.last()), 2, ts.len()))
    }
}

/// The entries of a top-level task numbered `index`: its own line, then,
/// for an `until` task, those of its nested tasks (one level deep).
pub open spec fn task_entries(t: TaskConfig, index: nat) -> Seq<Seq<char>> {
    seq![plan_entry(kind_line(t), 1, index)] + match t {
        TaskConfig::Until { tasks, .. } => nested_entries(tasks@),
        _ => Seq::empty(),
    }
}

/// The plan listing of a task list.
pub open spec fn plan_listing(ts: Seq<TaskConfig>) -> Seq<Seq<char>>
    decreases ts.len(),
{
    if ts.len() == 0 {
        Seq::empty()
    } else {
        plan_listing(ts.drop_last()) + task_entries(ts.last(), ts.len())
    }
}

/// The plan line describing one task: its kind, name, and settings.
pub fn task_kind_line(task: &TaskConfig) -> (r: String)
    ensures
        r@ == kind_line(*task),
{
    let mut s: String;
    match task {
        TaskConfig::Ask { model, register, .. } => {
            s = String::from_str("[ask]   name=");
            s.append(task.display_name().as_str());
            s.append(" model=");
            s.append(model.as_str());
            s.append(" register=");
            match register {
                Some(r) => s.append(r.as_str()),
                None => s.append("-"),
            }
        },
        TaskConfig::Run { command, register, .. } => {
            s = String::from_str("[run]   name=");
            s.append(task.display_name().as_str());
            s.append(" command=`");
            s.append(command.as_str());
            s.append("` register=");
            match register {
                Some(r) => s.append(r.as_str()),
                None => s.append("-"),
            }
        },
        TaskConfig::Until { condition, max_iterations, tasks, .. } => {
            s = String::from_str("[until] name=");
            s.append(task.display_name().as_str());
            s.append(" condition=`");
            s.append(condition.as_str());
            s.append("` max_iterations=");
            s.append(unsigned_decimal_string(*max_iterations as u64).as_str());
            s.append(" (");
            s.append(unsigned_decimal_string(tasks.len() as u64).as_str());
            s.append(" nested task(s))");
        },
    }
    s
}

/// One numbered plan entry, indented two spaces per level of `depth`.
pub fn task_plan_line(line: &str, depth: usize, index: usize) -> (r: String)
    ensures
        r@ == plan_entry(line@, depth as nat, index as nat),
{
    let mut s = String::new();
    let mut d: usize = 0;
    while d < depth
        invariant
            d <= depth,
            s@ == indent(d as nat),
        decreases depth - d,
    {
        s.append("  ");
        proof {
            reveal_strlit("  ");
        }
        assert(s@ =~= indent((d + 1) as nat));
        d = d + 1;
    }
    s.append(unsigned_decimal_string(index as u64).as_str());
    s.append(". ");
    s.append(line);
    s
}

/// The `vikar plan` listing of a playbook's tasks: one numbered line per
/// top-level task, followed, for an `until` task, by its nested tasks one
/// level deeper.
pub fn plan_lines(tasks: &Vec<TaskConfig>) -> (r: Vec<String>)
    ensures
        r@.map_values(|s: String| s@) == plan_listing(tasks@),
{
    let mut out: Vec<String> = Vec::new();
    let n = tasks.len();
    for i in 0..n
        invariant
            n == tasks@.len(),
            out@.map_values(|s: String| s@) == plan_listing(tasks@.take(i as int)),
    {
        let ghost before = out@.map_values(|s: String| s@);
        assert(tasks@.take(i + 1).drop_last() == tasks@.take(i as int));
        let line = task_kind_line(&tasks[i]);
        out.push(task_plan_line(line.as_str(), 1, i + 1));
        match &tasks[i] {
            TaskConfig::Until { tasks: inner, .. } => {
                let m = inner.len();
                for j in 0..m
                    invariant
                        m == inner@.len(),
                        n == tasks@.len(),
                        i < n,
                        tasks@[i as int] matches TaskConfig::Until { tasks: t2, .. } && t2 == *inner,
                        out@.map_values(|s: String| s@) == before + seq![
                            plan_entry(kind_line(tasks@[i as int]), 1, (i + 1) as nat),
                        ] + nested_entries(inner@.take(j as int)),
                {
                    assert(inner@.take(j + 1).drop_last() == inner@.take(j as int));
                    let inner_line = task_kind_line(&inner[j]);
                    let entry = task_plan_line(inner_line.as_str(), 2, j + 1);
                    let ghost before_j = out@;
                    out.push(entry);
                    assert(out@.map_values(|s: String| s@) =~= before_j.map_values(|s: String| s@).push(entry@));
                    assert(nested_entries(inner@.take(j + 1)) == nested_entries(inner@.take(j as int)).push(
                        plan_entry(kind_line(inner@[j as int]), 2, (j + 1) as nat),
                    ));
                    assert(out@.map_values(|s: String| s@) =~= before + seq![
                        plan_entry(kind_line(tasks@[i as int]), 1, (i + 1) as nat),
                    ] + nested_entries(inner@.take(j + 1)));
                }
                assert(inner@.take(m as int) == inner@);
            },
            _ => {},
        }
        assert(out@.map_values(|s: String| s@) =~= plan_listing(tasks@.take(i + 1)));
    }
    assert(tasks@.take(n as int) == tasks@);
    out
}

/// Names joined with `, `.
pub open spec fn join_names(names: Seq<Seq<char>>) -> Seq<char>
    decreases names.len(),
{
    if names.len() == 0 {
        Seq::empty()
    } else if names.len() == 1 {
        names[0]
    } else {
        join_names(names.drop_last()) + ", "@ + names.last()
    }
}

/// The declared model names, in order.
pub open spec fn model_names(models: Seq<(String, ModelConfig)>) -> Seq<Seq<char>> {
    models.map_values(|m: (String, ModelConfig)| m.0@)
}

/// The whole `vikar plan` report for a validated playbook read from
/// `path`: the path, the declared models (or `(none)`), the task count,
/// the task listing, a blank line, and how to run it.
pub open spec fn report(path: Seq<char>, models: Seq<(String, ModelConfig)>, tasks: Seq<TaskConfig>) -> Seq<
    Seq<char>,
> {
    seq![
        "Playbook: "@ + path,
        "Models declared: "@ + if models.len() == 0 {
            "(none)"@
        } else {
            join_names(model_names(models))
        },
        "Tasks ("@ + decimal_nat(tasks.len()) + "):"@,
    ] + plan_listing(tasks) + seq![
        Seq::<char>::empty(),
        "Playbook is valid. Run with `vikar play "@ + path + "`."@,
    ]
}

/// The lines `vikar plan` prints for a validated playbook read from `path`.
pub fn plan_report(path: &str, playbook: &Playbook) -> (r: Vec<String>)
    ensures
        r@.map_values(|s: String| s@) == report(path@, playbook.models@, playbook.tasks@),
{
    let mut head = String::from_str("Playbook: ");
    head.append(path);
    let mut models = String::from_str("Models declared: ");
    let n = playbook.models.len();
    if n == 0 {
        models.append("(none)");
    } else {
        let ghost names = model_names(playbook.models@);
        let ghost start = models@;
        for i in 0..n
            invariant
                n == playbook.models@.len(),
                n > 0,
                names == model_names(playbook.models@),
                models@ == start + join_names(names.take(i as int)),
        {
            assert(names.take(i + 1).drop_last() == names.take(i as int));
            if i > 0 {
                models.append(", ");
            }
            models.append(playbook.models[i].0.as_str());
            proof {
                let cur = names.take(i + 1);
                assert(cur.last() == playbook.models@[i as int].0@);
                if i == 0 {
                    assert(names.take(0) =~= Seq::<Seq<char>>::empty());
                    assert(models@ =~= start + join_names(cur));
                } else {
                    assert(models@ =~= start + join_names(cur));
                }
            }
        }
        assert(names.take(n as int) == names);
    }
    let mut count = String::from_str("Tasks (");
    count.append(unsigned_decimal_string(playbook.tasks.len() as u64).as_str());
    count.append("):");
    let ghost head_v = head@;
    let ghost models_v = models@;
    let ghost count_v = count@;
    let mut out: Vec<String> = Vec::new();
    out.push(head);
    out.push(models);
    out.push(count);
    let listing = plan_lines(&playbook.tasks);
    let m = listing.len();
    let ghost base = out@.map_values(|s: String| s@);
    assert(base =~= seq![head_v, models_v, count_v]);
    for j in 0..m
        invariant
            m == listing@.len(),
            out@.map_values(|s: String| s@) == base + listing@.take(j as int).map_values(
                |s: String| s@,
            ),
    {
        let ghost before = out@;
        let c = listing[j].clone();
        assert(c@ == listing@[j as int]@);
        out.push(c);
        assert(out@ == before.push(c));
        assert(out@.map_values(|s: String| s@) =~= before.map_values(|s: String| s@).push(c@));
        assert(listing@.take(j + 1).map_values(|s: String| s@) =~= listing@.take(j as int).map_values(
            |s: String| s@,
        ).push(c@));
    }
    assert(listing@.take(m as int) == listing@);
    let ghost mid = out@;
    assert(mid.map_values(|s: String| s@) =~= base + listing@.map_values(|s: String| s@));
    let blank = String::new();
    let mut tail = String::from_str("Playbook is valid. Run with `vikar play ");
    tail.append(path);
    tail.append("`.");
    let ghost blank_v = blank@;
    let ghost tail_v = tail@;
    out.push(blank);
    out.push(tail);
    assert(out@.map_values(|s: String| s@) =~= mid.map_values(|s: String| s@).push(blank_v).push(
        tail_v,
    ));
    assert(out@.map_values(|s: String| s@) =~= report(path@, playbook.models@, playbook.tasks@));
    out
}

/// The plan line of a task starts with its kind and display name. An `ask`
/// or `run` line ends with what it registers under: its `register:` name
/// when it has one, `-` otherwise; an `ask` line names its model just
/// before that, a `run` line its command. An `until` line shows its
/// condition, its iteration limit and how many tasks it holds.
pub proof fn law_plan_line_shows_register(t: TaskConfig)
    ensures
        t matches TaskConfig::Ask { model, register, .. } ==> {
            let tail = " model="@ + model@ + " register="@ + match register {
                Some(r) => r@,
                None => "-"@,
            };
            kind_line(t) == "[ask]   name="@ + display_name_of(t) + tail
        },
        t matches TaskConfig::Run { command, register, .. } ==> {
            let tail = " command=`"@ + command@ + "` register="@ + match register {
                Some(r) => r@,
                None => "-"@,
            };
            kind_line(t) == "[run]   name="@ + display_name_of(t) + tail
        },
        t matches TaskConfig::Until { condition, max_iterations, tasks, .. } ==> kind_line(t)
            == "[until] name="@ + display_name_of(t) + (" condition=`"@ + condition@
            + "` max_iterations="@ + decimal_nat(max_iterations as nat) + " ("@ + decimal_nat(
            tasks@.len(),
        ) + " nested task(s))"@),
{
    match t {
        TaskConfig::Ask { model, register, .. } => {
            let head = "[ask]   name="@ + display_name_of(t);
            let reg = register_or_dash(register);
            assert(head + " model="@ + model@ + " register="@ + reg =~= head + (" model="@ + model@
                + " register="@ + reg));
        },
        TaskConfig::Run { command, register, .. } => {
            let head = "[run]   name="@ + display_name_of(t);
            let reg = register_or_dash(register);
            assert(head + " command=`"@ + command@ + "` register="@ + reg =~= head + (" command=`"@
                + command@ + "` register="@ + reg));
        },
        TaskConfig::Until { condition, max_iterations, tasks, .. } => {
            let head = "[until] name="@ + display_name_of(t);
            assert(head + " condition=`"@ + condition@ + "` max_iterations="@ + decimal_nat(
                max_iterations as nat,
            ) + " ("@ + decimal_nat(tasks@.len()) + " nested task(s))"@ =~= head + (" condition=`"@
                + condition@ + "` max_iterations="@ + decimal_nat(max_iterations as nat) + " ("@
                + decimal_nat(tasks@.len()) + " nested task(s))"@));
        },
    }
}

} // verus!
