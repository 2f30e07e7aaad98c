//! The text of a new Kylefile.

use crate::text::{append, chars_of, is_text, string_of};
use vstd::prelude::*;

verus! {

/// What a task of a new Kylefile is made of.
pub struct TaskDefView {
    pub name: Seq<char>,
    pub desc: Seq<char>,
    pub run: Seq<char>,
}

/// A task of a new Kylefile, as the user entered it.
#[derive(Debug)]
pub struct TaskDef {
    pub name: String,
    pub desc: String,
    pub run: String,
}

impl View for TaskDef {
    type V = TaskDefView;

    open spec fn view(&self) -> TaskDefView {
        TaskDefView { name: self.name@, desc: self.desc@, run: self.run@ }
    }
}

/// What each task of `v` is made of.
pub open spec fn task_defs(v: Seq<TaskDef>) -> Seq<TaskDefView> {
    Seq::new(v.len(), |i: int| v[i]@)
}

/// One task in YAML: its name, its description if it has one, its command.
pub open spec fn yaml_task(t: TaskDefView) -> Seq<char> {
    "  "@ + t.name + ":\n"@ + (if t.desc.len() > 0 {
        "    desc: "@ + t.desc + "\n"@
    } else {
        Seq::empty()
    }) + "    run: "@ + t.run + "\n"@
}

/// One task in TOML: its table, its description if it has one, its command.
pub open spec fn toml_task(t: TaskDefView) -> Seq<char> {
    "\n[tasks."@ + t.name + "]\n"@ + (if t.desc.len() > 0 {
        "desc = \""@ + t.desc + "\"\n"@
    } else {
        Seq::empty()
    }) + "run = \""@ + t.run + "\"\n"@
}

/// The tasks in YAML, one after the other.
pub open spec fn yaml_tasks(tasks: Seq<TaskDefView>) -> Seq<char>
    decreases tasks.len(),
{
    if tasks.len() == 0 {
        Seq::empty()
    } else {
        yaml_tasks(tasks.drop_last()) + yaml_task(tasks.last())
    }
}

/// The tasks in TOML, one after the other.
pub open spec fn toml_tasks(tasks: Seq<TaskDefView>) -> Seq<char>
    decreases tasks.len(),
{
    if tasks.len() == 0 {
        Seq::empty()
    } else {
        toml_tasks(tasks.drop_last()) + toml_task(tasks.last())
    }
}

/// A Kylefile in YAML: the header that names the format, the version of the
/// program, the project's name and the tasks, or an example in a comment
/// where there are none.
pub open spec fn yaml_text(version: Seq<char>, name: Seq<char>, tasks: Seq<TaskDefView>) -> Seq<
    char,
> {
    "# kyle: yaml\n"@ + "version: \""@ + version + "\"\n"@ + "name: "@ + name + "\n\ntasks:\n"@ + (
    if tasks.len() == 0 {
        "  # example:\n  #   desc: An example task\n  #   run: echo hello\n"@
    } else {
        yaml_tasks(tasks)
    })
}

/// A Kylefile in TOML: the header that names the format, the version of the
/// program, the project's name and the tasks, or an example in a comment
/// where there are none.
pub open spec fn toml_text(version: Seq<char>, name: Seq<char>, tasks: Seq<TaskDefView>) -> Seq<
    char,
> {
    "# kyle: toml\n"@ + "version = \""@ + version + "\"\n"@ + "name = \""@ + name + "\"\n"@ + (
    if tasks.len() == 0 {
        "\n# [tasks.example]\n# desc = \"An example task\"\n# run = \"echo hello\"\n"@
    } else {
        toml_tasks(tasks)
    })
}

/// Appends `text` to `out`.
fn put(out: &mut Vec<char>, text: &str)
    ensures
        final(out)@ == old(out)@ + text@,
{
    append(out, &chars_of(text));
}

/// The text of a new Kylefile in YAML.
pub fn generate_yaml(version: &str, name: &str, tasks: &[TaskDef]) -> (out: String)
    ensures
        out@ == yaml_text(version@, name@, task_defs(tasks@)),
{
    let mut out: Vec<char> = Vec::new();
    put(&mut out, "# kyle: yaml\n");
    put(&mut out, "version: \"");
    put(&mut out, version);
    put(&mut out, "\"\n");
    put(&mut out, "name: ");
    put(&mut out, name);
    put(&mut out, "\n\ntasks:\n");
    let ghost head = out@;
    let ghost all = task_defs(tasks@);
    if tasks.len() == 0 {
        put(&mut out, "  # example:\n  #   desc: An example task\n  #   run: echo hello\n");
        assert(out@ =~= yaml_text(version@, name@, all));
        return string_of(&out);
    }
    let mut i: usize = 0;
    assert(all.take(0) =~= Seq::<TaskDefView>::empty());
    assert(out@ =~= head + yaml_tasks(all.take(0)));
    while i < tasks.len()
        invariant
            i <= tasks.len(),
            all == task_defs(tasks@),
            tasks.len() > 0,
            out@ == head + yaml_tasks(all.take(i as int)),
        decreases tasks.len() - i,
    {
        let t = &tasks[i];
        let ghost before = out@;
        put(&mut out, "  ");
        put(&mut out, t.name.as_str());
        put(&mut out, ":\n");
        if !t.desc.as_str().is_empty() {
            put(&mut out, "    desc: ");
            put(&mut out, t.desc.as_str());
            put(&mut out, "\n");
        }
        put(&mut out, "    run: ");
        put(&mut out, t.run.as_str());
        put(&mut out, "\n");
        proof {
            let now = all.take(i + 1);
            assert(now.drop_last() =~= all.take(i as int));
            assert(now.last() == t@);
            assert(out@ =~= before + yaml_task(t@));
        }
        i += 1;
    }
    proof {
        assert(all.take(tasks.len() as int) =~= all);
        assert(out@ =~= yaml_text(version@, name@, all));
    }
    string_of(&out)
}

/// The text of a new Kylefile in TOML.
pub fn generate_toml(version: &str, name: &str, tasks: &[TaskDef]) -> (out: String)
    ensures
        out@ == toml_text(version@, name@, task_defs(tasks@)),
{
    let mut out: Vec<char> = Vec::new();
    put(&mut out, "# kyle: toml\n");
    put(&mut out, "version = \"");
    put(&mut out, version);
    put(&mut out, "\"\n");
    put(&mut out, "name = \"");
    put(&mut out, name);
    put(&mut out, "\"\n");
    let ghost head = out@;
    let ghost all = task_defs(tasks@);
    if tasks.len() == 0 {
        put(
            &mut out,
            "\n# [tasks.example]\n# desc = \"An example task\"\n# run = \"echo hello\"\n",
        );
        assert(out@ =~= toml_text(version@, name@, all));
        return string_of(&out);
    }
    let mut i: usize = 0;
    assert(all.take(0) =~= Seq::<TaskDefView>::empty());
    assert(out@ =~= head + toml_tasks(all.take(0)));
    while i < tasks.len()
        invariant
            i <= tasks.len(),
            all == task_defs(tasks@),
            tasks.len() > 0,
            out@ == head + toml_tasks(all.take(i as int)),
        decreases tasks.len() - i,
    {
        let t = &tasks[i];
        let ghost before = out@;
        put(&mut out, "\n[tasks.");
        put(&mut out, t.name.as_str());
        put(&mut out, "]\n");
        if !t.desc.as_str().is_empty() {
            put(&mut out, "desc = \"");
            put(&mut out, t.desc.as_str());
            put(&mut out, "\"\n");
        }
        put(&mut out, "run = \"");
        put(&mut out, t.run.as_str());
        put(&mut out, "\"\n");
        proof {
            let now = all.take(i + 1);
            assert(now.drop_last() =~= all.take(i as int));
            assert(now.last() == t@);
            assert(out@ =~= before + toml_task(t@));
        }
        i += 1;
    }
    proof {
        assert(all.take(tasks.len() as int) =~= all);
        assert(out@ =~= toml_text(version@, name@, all));
    }
    string_of(&out)
}

/// The text of a new Kylefile: in YAML where `format` is `yaml`, else in
/// TOML.
pub fn generate_kylefile(format: &str, version: &str, name: &str, tasks: &[TaskDef]) -> (out:
    String)
    ensures
        out@ == if format@ == "yaml"@ {
            yaml_text(version@, name@, task_defs(tasks@))
        } else {
            toml_text(version@, name@, task_defs(tasks@))
        },
{
    if is_text(&chars_of(format), "yaml") {
        generate_yaml(version, name, tasks)
    } else {
        generate_toml(version, name, tasks)
    }
}

} // verus!
