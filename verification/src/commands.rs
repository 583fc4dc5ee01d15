//! Built-in slash commands shared by every front-end: names and help text
//! are defined once here so help menus and completion lists agree.

use vstd::prelude::*;

verus! {

/// A built-in slash command.
#[derive(Debug, Clone, Copy)]
pub struct SlashCommandInfo {
    /// Command name without the leading `/`.
    pub name: &'static str,
    /// One-line help text.
    pub description: &'static str,
}

/// Names and descriptions of the built-in commands, in their user-facing order.
pub open spec fn builtin_commands_spec() -> Seq<(Seq<char>, Seq<char>)> {
    seq![
        ("compact"@, "压缩上下文，释放上下文空间"@),
        ("undo"@, "撤销上一轮"@),
        ("help"@, "显示可用命令"@),
    ]
}

/// The built-in commands: `compact`, `undo`, `help`, in that order.
pub fn builtin_slash_commands() -> (r: Vec<SlashCommandInfo>)
    ensures
        r@.len() == builtin_commands_spec().len(),
        forall|i: int|
            0 <= i < r@.len() ==> (#[trigger] r@[i]).name@ == builtin_commands_spec()[i].0
                && r@[i].description@ == builtin_commands_spec()[i].1,
{
    let mut r: Vec<SlashCommandInfo> = Vec::new();
    r.push(SlashCommandInfo { name: "compact", description: "压缩上下文，释放上下文空间" });
    r.push(SlashCommandInfo { name: "undo", description: "撤销上一轮" });
    r.push(SlashCommandInfo { name: "help", description: "显示可用命令" });
    r
}

/// The help line of one command: ``- `/name` — description`` and a newline.
pub open spec fn help_line(name: Seq<char>, description: Seq<char>) -> Seq<char> {
    "- `/"@ + name + "` — "@ + description + "\n"@
}

/// Help text for `cmds`: a bold title line, then one line per command.
pub open spec fn help_text(cmds: Seq<(Seq<char>, Seq<char>)>) -> Seq<char>
    decreases cmds.len(),
{
    if cmds.len() == 0 {
        "**可用命令**\n"@
    } else {
        help_text(cmds.drop_last()) + help_line(cmds.last().0, cmds.last().1)
    }
}

/// Render the built-in commands as `/help` text.
pub fn slash_commands_help() -> (s: String)
    ensures
        s@ == help_text(builtin_commands_spec()),
{
    let cmds = builtin_slash_commands();
    let mut out = String::from_str("**可用命令**\n");
    let mut i: usize = 0;
    while i < cmds.len()
        invariant
            i <= cmds@.len(),
            cmds@.len() == builtin_commands_spec().len(),
            forall|k: int|
                0 <= k < cmds@.len() ==> (#[trigger] cmds@[k]).name@ == builtin_commands_spec()[k].0
                    && cmds@[k].description@ == builtin_commands_spec()[k].1,
            out@ == help_text(builtin_commands_spec().take(i as int)),
        decreases cmds@.len() - i,
    {
        let c = cmds[i];
        out.append("- `/");
        out.append(c.name);
        out.append("` — ");
        out.append(c.description);
        out.append("\n");
        assert(builtin_commands_spec().take(i + 1).drop_last() =~= builtin_commands_spec().take(
            i as int,
        ));
        i = i + 1;
    }
    assert(builtin_commands_spec().take(i as int) =~= builtin_commands_spec());
    out
}

proof fn lemma_occurs_in_middle(a: Seq<char>, p: Seq<char>, b: Seq<char>)
    ensures
        crate::text::contains_seq(a + p + b, p),
{
    assert((a + p + b).subrange(a.len() as int, (a.len() + p.len()) as int) =~= p);
    assert(crate::text::occurs_at(a + p + b, p, a.len() as int));
}

proof fn lemma_help_mentions(cmds: Seq<(Seq<char>, Seq<char>)>, i: int)
    requires
        0 <= i < cmds.len(),
    ensures
        crate::text::contains_seq(help_text(cmds), "/"@ + cmds[i].0),
    decreases cmds.len(),
{
    reveal_strlit("- `/");
    reveal_strlit("- `");
    reveal_strlit("/");
    let last = cmds.len() - 1;
    if i == last {
        let pre = help_text(cmds.drop_last()) + "- `"@;
        let post = "` — "@ + cmds[i].1 + "\n"@;
        assert(help_text(cmds) =~= pre + ("/"@ + cmds[i].0) + post);
        lemma_occurs_in_middle(pre, "/"@ + cmds[i].0, post);
    } else {
        lemma_help_mentions(cmds.drop_last(), i);
        assert(cmds.drop_last()[i] == cmds[i]);
        let h = help_text(cmds.drop_last());
        let pat = "/"@ + cmds[i].0;
        let k = choose|k: int| crate::text::occurs_at(h, pat, k);
        let t = help_line(cmds.last().0, cmds.last().1);
        assert(help_text(cmds) == h + t);
        assert((h + t).subrange(k, k + pat.len()) =~= h.subrange(k, k + pat.len()));
        assert(crate::text::occurs_at(h + t, pat, k));
    }
}

/// The help text names every built-in command with its slash, so the help
/// menu lists each command there is.
pub proof fn law_help_lists_every_command(i: int)
    requires
        0 <= i < builtin_commands_spec().len(),
    ensures
        crate::text::contains_seq(help_text(builtin_commands_spec()), "/"@ + builtin_commands_spec()[i].0),
{
    lemma_help_mentions(builtin_commands_spec(), i);
}

} // verus!
