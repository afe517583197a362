//! A program as an operator reads it: one line per step.
//!
//! The pieces are written as the configuration writes them, but adjacent
//! pieces of one argument are not told apart, so the lines are for reading
//! only.

use vstd::prelude::*;
use vstd::string::StringExecFns;
use crate::model::program::{
    ActionProgram, ArgPart, ArgTemplate, BranchTarget, ExecAction, Placeholder, ProgramOp,
    SpawnBody,
};
use crate::text;

verus! {

/// The word for a placeholder.
pub open spec fn placeholder_word(p: Placeholder) -> Seq<char> {
    match p {
        Placeholder::Path => "path"@,
        Placeholder::Relative => "relative"@,
        Placeholder::Anchor => "anchor"@,
        Placeholder::Watch => "watch"@,
        Placeholder::Parent => "parent"@,
        Placeholder::Time => "time"@,
        Placeholder::Created => "created"@,
        Placeholder::Deleted => "deleted"@,
        Placeholder::Modified => "modified"@,
        Placeholder::RenamedFrom => "renamed_from"@,
        Placeholder::RenamedTo => "renamed_to"@,
        Placeholder::Excluded => "excluded"@,
    }
}

/// One piece of an argument, as written.
pub open spec fn part_text(part: ArgPart) -> Seq<char> {
    match part {
        ArgPart::Literal(s) => s@,
        ArgPart::Placeholder(p) => "${specter."@ + placeholder_word(p) + "}"@,
        ArgPart::EnvVar { name, default } => match default {
            None => "${env."@ + name@ + "}"@,
            Some(d) => "${env."@ + name@ + ":-"@ + d@ + "}"@,
        },
    }
}

/// One argument, as written.
pub open spec fn template_text(template: ArgTemplate) -> Seq<char> {
    text::joined(template.parts@.map_values(|p: ArgPart| part_text(p)), Seq::empty())
}

/// One command, as written.
pub open spec fn exec_text(exec: ExecAction) -> Seq<char> {
    text::joined(exec.argv@.map_values(|t: ArgTemplate| template_text(t)), " "@)
        + match exec.timeout {
        None => Seq::empty(),
        Some(d) => " (timeout "@ + text::duration_text(d.secs(), d.nanos()) + ")"@,
    }
}

/// What one step runs, as written.
pub open spec fn body_text(body: SpawnBody) -> Seq<char> {
    match body {
        SpawnBody::Exec(exec) => "exec "@ + exec_text(exec),
        SpawnBody::Pipe(stages) => "pipe("@ + text::decimal(stages@.len()) + ") "@ + text::joined(
            stages@.map_values(|e: ExecAction| exec_text(e)),
            " | "@,
        ),
    }
}

/// Where a program goes on, as written.
pub open spec fn target_text(target: BranchTarget) -> Seq<char> {
    match target {
        BranchTarget::Continue(index) => "#"@ + text::decimal(index as nat),
        BranchTarget::Terminate => "terminate"@,
        BranchTarget::Escape => "escape"@,
    }
}

/// One step, as written.
pub open spec fn op_text(index: nat, op: ProgramOp) -> Seq<char> {
    "["@ + text::decimal(index) + "] "@ + body_text(op.body) + "  ok→"@ + target_text(op.on_ok)
        + " fail→"@ + target_text(op.on_failed)
}

/// Targets that are written alike are the same.
pub proof fn law_targets_are_told_apart(a: BranchTarget, b: BranchTarget)
    ensures
        target_text(a) == target_text(b) ==> a == b,
{
    reveal_strlit("#");
    reveal_strlit("terminate");
    reveal_strlit("escape");
    match (a, b) {
        (BranchTarget::Continue(x), BranchTarget::Continue(y)) => {
            text::law_a_number_is_written_as_itself(x as nat);
            text::law_a_number_is_written_as_itself(y as nat);
            assert(target_text(a).skip(1) =~= text::decimal(x as nat));
            assert(target_text(b).skip(1) =~= text::decimal(y as nat));
        },
        (BranchTarget::Continue(_), BranchTarget::Terminate)
        | (BranchTarget::Continue(_), BranchTarget::Escape) => {
            assert(target_text(a)[0] != target_text(b)[0]);
        },
        (BranchTarget::Terminate, BranchTarget::Continue(_))
        | (BranchTarget::Escape, BranchTarget::Continue(_)) => {
            assert(target_text(a)[0] != target_text(b)[0]);
        },
        _ => {
            assert("terminate"@.len() != "escape"@.len());
        },
    }
}

/// A step starts with its place and ends with where the program goes on after
/// a failure; before that stands where it goes on after success, and before
/// that what it runs. None of them stands for another.
pub proof fn law_a_step_tells_place_work_and_targets(index: nat, op: ProgramOp)
    ensures
        ({
            let line = op_text(index, op);
            let head = "["@ + text::decimal(index) + "] "@;
            let fail = " fail→"@ + target_text(op.on_failed);
            let ok = "  ok→"@ + target_text(op.on_ok);
            let n = line.len();
            &&& n == head.len() + body_text(op.body).len() + ok.len() + fail.len()
            &&& line.take(head.len() as int) == head
            &&& line.skip(n - fail.len()) == fail
            &&& line.subrange(n - fail.len() - ok.len(), n - fail.len()) == ok
            &&& line.subrange(head.len() as int, n - fail.len() - ok.len()) == body_text(op.body)
        }),
{
    let line = op_text(index, op);
    let head = "["@ + text::decimal(index) + "] "@;
    let fail = " fail→"@ + target_text(op.on_failed);
    let ok = "  ok→"@ + target_text(op.on_ok);
    assert(line =~= head + body_text(op.body) + ok + fail);
    let n = line.len();
    assert(line.take(head.len() as int) =~= head);
    assert(line.skip(n - fail.len()) =~= fail);
    assert(line.subrange(n - fail.len() - ok.len(), n - fail.len()) =~= ok);
    assert(line.subrange(head.len() as int, n - fail.len() - ok.len()) =~= body_text(op.body));
}

/// Whether the lines are those of the steps, in order.
pub open spec fn rendered(ops: Seq<ProgramOp>, lines: Seq<String>) -> bool {
    &&& lines.len() == ops.len()
    &&& forall|i: int|
        0 <= i < lines.len() ==> (#[trigger] lines[i])@ == op_text(i as nat, ops[i])
}

/// Every step has its line, at its own place and numbered by it, and the line
/// tells the targets of that very step.
pub proof fn law_every_step_has_its_line(ops: Seq<ProgramOp>, lines: Seq<String>, i: int)
    requires
        rendered(ops, lines),
        0 <= i < ops.len(),
    ensures
        lines.len() == ops.len(),
        ("["@ + text::decimal(i as nat) + "] "@ + body_text(ops[i].body)).is_prefix_of(lines[i]@),
        ("  ok→"@ + target_text(ops[i].on_ok) + " fail→"@ + target_text(
            ops[i].on_failed,
        )).is_suffix_of(lines[i]@),
{
    let head = "["@ + text::decimal(i as nat) + "] "@ + body_text(ops[i].body);
    let tail = "  ok→"@ + target_text(ops[i].on_ok) + " fail→"@ + target_text(ops[i].on_failed);
    assert(lines[i]@ == op_text(i as nat, ops[i]));
    assert(lines[i]@ =~= head + tail);
    assert(head =~= lines[i]@.subrange(0, head.len() as int));
    assert(tail =~= lines[i]@.subrange(
        lines[i]@.len() - tail.len(),
        lines[i]@.len() as int,
    ));
}

/// A pipe tells how many commands it has and then every one of them, in order,
/// with a bar between each two.
pub proof fn law_a_pipe_tells_every_command(
    stages: Vec<ExecAction>,
    more: Vec<ExecAction>,
    rest: Seq<char>,
)
    requires
        more@.len() == stages@.len() + 1,
        stages@.len() > 0,
        more@.drop_last() == stages@,
        body_text(SpawnBody::Pipe(stages)) == "pipe("@ + text::decimal(stages@.len()) + ") "@
            + rest,
    ensures
        body_text(SpawnBody::Pipe(more)) == "pipe("@ + text::decimal(more@.len()) + ") "@ + rest
            + " | "@ + exec_text(more@.last()),
{
    let texts = stages@.map_values(|e: ExecAction| exec_text(e));
    let longer = more@.map_values(|e: ExecAction| exec_text(e));
    let head = "pipe("@ + text::decimal(stages@.len()) + ") "@;
    assert(longer =~= texts.push(exec_text(more@.last())));
    text::law_joined_texts_grow_one_by_one(texts, " | "@, exec_text(more@.last()));
    assert((head + rest).skip(head.len() as int) =~= rest);
    assert((head + text::joined(texts, " | "@)).skip(head.len() as int) =~= text::joined(
        texts,
        " | "@,
    ));
    assert(body_text(SpawnBody::Pipe(more)) =~= "pipe("@ + text::decimal(more@.len()) + ") "@
        + rest + " | "@ + exec_text(more@.last()));
}

/// Arguments and their pieces are written in order, none twice and none left
/// out: one more adds its own text behind the others, an argument behind a
/// space, a piece behind nothing.
pub proof fn law_nothing_of_a_command_is_left_out(
    args: ExecAction,
    more_args: ExecAction,
    template: ArgTemplate,
    more_parts: ArgTemplate,
)
    requires
        more_args.argv@.len() > 1,
        args.argv@ == more_args.argv@.drop_last(),
        args.timeout is None,
        more_args.timeout is None,
        more_parts.parts@.len() > 0,
        template.parts@ == more_parts.parts@.drop_last(),
    ensures
        exec_text(more_args) == exec_text(args) + " "@ + template_text(more_args.argv@.last()),
        template_text(more_parts) == template_text(template) + part_text(more_parts.parts@.last()),
{
    let texts = args.argv@.map_values(|t: ArgTemplate| template_text(t));
    let more = more_args.argv@.map_values(|t: ArgTemplate| template_text(t));
    assert(more =~= texts.push(template_text(more_args.argv@.last())));
    text::law_joined_texts_grow_one_by_one(texts, " "@, template_text(more_args.argv@.last()));
    assert(exec_text(more_args) =~= exec_text(args) + " "@ + template_text(
        more_args.argv@.last(),
    ));
    let parts = template.parts@.map_values(|p: ArgPart| part_text(p));
    let longer = more_parts.parts@.map_values(|p: ArgPart| part_text(p));
    assert(longer =~= parts.push(part_text(more_parts.parts@.last())));
    text::law_joined_texts_grow_one_by_one(
        parts,
        Seq::empty(),
        part_text(more_parts.parts@.last()),
    );
    assert(template_text(more_parts) =~= template_text(template) + part_text(
        more_parts.parts@.last(),
    ));
}

/// A time limit is told behind the command, and only where there is one.
pub proof fn law_a_time_limit_is_told_behind_the_command(limited: ExecAction, free: ExecAction)
    requires
        limited.argv == free.argv,
        free.timeout is None,
    ensures
        limited.timeout is None ==> exec_text(limited) == exec_text(free),
        limited.timeout matches Some(d) ==> exec_text(limited) == exec_text(free) + " (timeout "@
            + text::duration_text(d.secs(), d.nanos()) + ")"@,
{
    assert(exec_text(free) =~= text::joined(
        free.argv@.map_values(|t: ArgTemplate| template_text(t)),
        " "@,
    ));
    if let Some(d) = limited.timeout {
        assert(exec_text(limited) =~= exec_text(free) + " (timeout "@ + text::duration_text(
            d.secs(),
            d.nanos(),
        ) + ")"@);
    }
}

/// Placeholders are told apart by their words.
pub proof fn law_placeholders_are_told_apart(a: Placeholder, b: Placeholder)
    ensures
        placeholder_word(a) == placeholder_word(b) ==> a == b,
{
    reveal_strlit("path");
    reveal_strlit("relative");
    reveal_strlit("anchor");
    reveal_strlit("watch");
    reveal_strlit("parent");
    reveal_strlit("time");
    reveal_strlit("created");
    reveal_strlit("deleted");
    reveal_strlit("modified");
    reveal_strlit("renamed_from");
    reveal_strlit("renamed_to");
    reveal_strlit("excluded");
    let x = placeholder_word(a);
    let y = placeholder_word(b);
    assert(x.len() != y.len() || x[0] != y[0] || a == b);
}

/// Every step of the program as one line, in order.
pub fn render(program: &ActionProgram) -> (lines: Vec<String>)
    ensures
        rendered(program.ops@, lines@),
{
    let mut lines: Vec<String> = Vec::new();
    let mut i: usize = 0;
    while i < program.ops.len()
        invariant
            i <= program.ops@.len(),
            lines@.len() == i,
            forall|j: int|
                0 <= j < i ==> (#[trigger] lines@[j])@ == op_text(j as nat, program.ops@[j]),
        decreases program.ops@.len() - i,
    {
        lines.push(render_op(i, &program.ops[i]));
        i = i + 1;
    }
    lines
}

/// One step as a line.
fn render_op(index: usize, op: &ProgramOp) -> (line: String)
    ensures
        line@ == op_text(index as nat, *op),
{
    let mut out: String = "[".to_owned();
    text::push_decimal(&mut out, index as u64);
    out.append("] ");
    write_body(&mut out, &op.body);
    out.append("  ok→");
    write_target(&mut out, op.on_ok);
    out.append(" fail→");
    write_target(&mut out, op.on_failed);
    out
}

/// Appends what a step runs.
fn write_body(out: &mut String, body: &SpawnBody)
    ensures
        final(out)@ == old(out)@ + body_text(*body),
{
    match body {
        SpawnBody::Exec(exec) => {
            out.append("exec ");
            write_exec(out, exec);
            assert(out@ =~= old(out)@ + body_text(*body));
        },
        SpawnBody::Pipe(stages) => {
            out.append("pipe(");
            text::push_decimal(out, stages.len() as u64);
            out.append(") ");
            let ghost head = out@;
            let ghost texts = stages@.map_values(|e: ExecAction| exec_text(e));
            let mut i: usize = 0;
            assert(texts.take(0) =~= Seq::empty());
            while i < stages.len()
                invariant
                    i <= stages@.len(),
                    texts == stages@.map_values(|e: ExecAction| exec_text(e)),
                    out@ == head + text::joined(texts.take(i as int), " | "@),
                decreases stages@.len() - i,
            {
                if i > 0 {
                    out.append(" | ");
                }
                write_exec(out, &stages[i]);
                i = i + 1;
                proof {
                    text::lemma_joined_take(texts, " | "@, i as int);
                    assert(out@ =~= head + text::joined(texts.take(i as int), " | "@));
                }
            }
            assert(texts.take(i as int) =~= texts);
            assert(out@ =~= old(out)@ + body_text(*body));
        },
    }
}

/// Appends a command.
fn write_exec(out: &mut String, exec: &ExecAction)
    ensures
        final(out)@ == old(out)@ + exec_text(*exec),
{
    let ghost texts = exec.argv@.map_values(|t: ArgTemplate| template_text(t));
    let mut i: usize = 0;
    assert(texts.take(0) =~= Seq::empty());
    while i < exec.argv.len()
        invariant
            i <= exec.argv@.len(),
            texts == exec.argv@.map_values(|t: ArgTemplate| template_text(t)),
            out@ == old(out)@ + text::joined(texts.take(i as int), " "@),
        decreases exec.argv@.len() - i,
    {
        if i > 0 {
            out.append(" ");
        }
        write_template(out, &exec.argv[i]);
        i = i + 1;
        proof {
            text::lemma_joined_take(texts, " "@, i as int);
            assert(out@ =~= old(out)@ + text::joined(texts.take(i as int), " "@));
        }
    }
    assert(texts.take(i as int) =~= texts);
    if let Some(d) = exec.timeout {
        out.append(" (timeout ");
        let span: String = text::format_span(d);
        out.append(span.as_str());
        out.append(")");
    }
    assert(out@ =~= old(out)@ + exec_text(*exec));
}

/// Appends an argument.
fn write_template(out: &mut String, template: &ArgTemplate)
    ensures
        final(out)@ == old(out)@ + template_text(*template),
{
    let ghost texts = template.parts@.map_values(|p: ArgPart| part_text(p));
    let mut i: usize = 0;
    assert(texts.take(0) =~= Seq::empty());
    while i < template.parts.len()
        invariant
            i <= template.parts@.len(),
            texts == template.parts@.map_values(|p: ArgPart| part_text(p)),
            out@ == old(out)@ + text::joined(texts.take(i as int), Seq::empty()),
        decreases template.parts@.len() - i,
    {
        write_part(out, &template.parts[i]);
        i = i + 1;
        proof {
            text::lemma_joined_take(texts, Seq::empty(), i as int);
            assert(out@ =~= old(out)@ + text::joined(texts.take(i as int), Seq::empty()));
        }
    }
    assert(texts.take(i as int) =~= texts);
}

/// Appends a piece of an argument.
fn write_part(out: &mut String, part: &ArgPart)
    ensures
        final(out)@ == old(out)@ + part_text(*part),
{
    match part {
        ArgPart::Literal(s) => {
            out.append(s.as_str());
        },
        ArgPart::Placeholder(p) => {
            out.append("${specter.");
            out.append(placeholder_token(*p));
            out.append("}");
        },
        ArgPart::EnvVar { name, default } => {
            out.append("${env.");
            out.append(name.as_str());
            if let Some(d) = default {
                out.append(":-");
                out.append(d.as_str());
            }
            out.append("}");
        },
    }
    assert(out@ =~= old(out)@ + part_text(*part));
}

/// Appends where a program goes on.
fn write_target(out: &mut String, target: BranchTarget)
    ensures
        final(out)@ == old(out)@ + target_text(target),
{
    match target {
        BranchTarget::Continue(index) => {
            out.append("#");
            text::push_decimal(out, index as u64);
        },
        BranchTarget::Terminate => {
            out.append("terminate");
        },
        BranchTarget::Escape => {
            out.append("escape");
        },
    }
    assert(out@ =~= old(out)@ + target_text(target));
}

/// The word for a placeholder.
pub fn placeholder_token(p: Placeholder) -> (token: &'static str)
    ensures
        token@ == placeholder_word(p),
{
    match p {
        Placeholder::Path => "path",
        Placeholder::Relative => "relative",
        Placeholder::Anchor => "anchor",
        Placeholder::Watch => "watch",
        Placeholder::Parent => "parent",
        Placeholder::Time => "time",
        Placeholder::Created => "created",
        Placeholder::Deleted => "deleted",
        Placeholder::Modified => "modified",
        Placeholder::RenamedFrom => "renamed_from",
        Placeholder::RenamedTo => "renamed_to",
        Placeholder::Excluded => "excluded",
    }
}

} // verus!
