//! The filesystem commands: `pwd`, `cd`, `ls`, `cat`, `tree`.

use crate::output::{line_views, output_is, push_line, CommandOutput, LineStyle};
use crate::text::{concat2, concat3, seq_views, split_lines, split_lines_exec};
use crate::vfs::{
    is_dir_spec, is_file_spec, ls_spec, resolve_spec, tree_spec, VirtualFs,
};
use vstd::prelude::*;
use vstd::string::StrSliceExecFns;
use vstd::string::StringExecFns;

verus! {

/// What `pwd` prints: the working directory, nothing else.
pub open spec fn pwd_spec(cwd: Seq<char>, r: CommandOutput) -> bool {
    output_is(r, seq![(cwd, LineStyle::Normal)], false, true)
}

/// Echoes the current working directory.
pub fn pwd(cwd: &str) -> (r: CommandOutput)
    ensures
        pwd_spec(cwd@, r),
{
    let mut lines: Vec<(String, LineStyle)> = Vec::new();
    push_line(&mut lines, cwd.to_owned(), LineStyle::Normal);
    proof {
        assert(line_views(lines@) =~= seq![(cwd@, LineStyle::Normal)]);
    }
    CommandOutput::new(lines, false, true)
}

/// The path `cd` aims for: its argument, or the root.
pub open spec fn cd_target(args: Seq<Seq<char>>) -> Seq<char> {
    if args.len() == 0 {
        "~"@
    } else {
        args[0]
    }
}

/// The working directory and output `cd` produces: moving into a
/// resolved directory, and an error naming the target otherwise,
/// with the working directory untouched.
pub open spec fn cd_spec(
    fs: VirtualFs,
    cwd0: Seq<char>,
    cwd1: Seq<char>,
    args: Seq<Seq<char>>,
    r: CommandOutput,
) -> bool {
    let target = cd_target(args);
    let resolved = resolve_spec(cwd0, target);
    if is_dir_spec(fs.model(), resolved) {
        cwd1 == resolved && output_is(r, Seq::empty(), false, true)
    } else if is_file_spec(fs.model(), resolved) {
        cwd1 == cwd0 && output_is(
            r,
            seq![("cd: not a directory: "@ + target, LineStyle::Error)],
            false,
            true,
        )
    } else {
        cwd1 == cwd0 && output_is(
            r,
            seq![("cd: no such directory: "@ + target, LineStyle::Error)],
            false,
            true,
        )
    }
}

/// Changes the working directory; on any error it stays put.
pub fn cd(fs: &VirtualFs, cwd: &mut String, args: &Vec<String>) -> (r: CommandOutput)
    ensures
        cd_spec(*fs, old(cwd)@, final(cwd)@, seq_views(args@), r),
{
    proof {
        if args@.len() >= 1 {
            assert(seq_views(args@)[0] == args@[0]@);
        }
    }
    let target: &str = if args.len() > 0 {
        args[0].as_str()
    } else {
        "~"
    };
    let resolved = fs.resolve_path(cwd.as_str(), target);

    if fs.is_dir(resolved.as_str()) {
        *cwd = resolved;
        let lines: Vec<(String, LineStyle)> = Vec::new();
        proof {
            assert(line_views(lines@) =~= Seq::<(Seq<char>, LineStyle)>::empty());
        }
        CommandOutput::new(lines, false, true)
    } else if fs.is_file(resolved.as_str()) {
        let mut lines: Vec<(String, LineStyle)> = Vec::new();
        push_line(&mut lines, concat2("cd: not a directory: ", target), LineStyle::Error);
        proof {
            assert(line_views(lines@) =~= seq![
                ("cd: not a directory: "@ + target@, LineStyle::Error),
            ]);
        }
        CommandOutput::new(lines, false, true)
    } else {
        let mut lines: Vec<(String, LineStyle)> = Vec::new();
        push_line(&mut lines, concat2("cd: no such directory: ", target), LineStyle::Error);
        proof {
            assert(line_views(lines@) =~= seq![
                ("cd: no such directory: "@ + target@, LineStyle::Error),
            ]);
        }
        CommandOutput::new(lines, false, true)
    }
}

/// `cd` aimed at a path that resolves to a file never moves the
/// working directory, and its one error line contains the words
/// `not a directory`.
pub proof fn lemma_cd_file_keeps_cwd(
    fs: VirtualFs,
    cwd0: Seq<char>,
    cwd1: Seq<char>,
    args: Seq<Seq<char>>,
    r: CommandOutput,
)
    requires
        cd_spec(fs, cwd0, cwd1, args, r),
        is_file_spec(fs.model(), resolve_spec(cwd0, cd_target(args))),
    ensures
        cwd1 == cwd0,
        line_views(r.lines@).len() == 1,
        line_views(r.lines@)[0].1 == LineStyle::Error,
        crate::text::has_substring(line_views(r.lines@)[0].0, "not a directory"@),
{
    reveal_strlit("cd: not a directory: ");
    reveal_strlit("not a directory");
    let line = line_views(r.lines@)[0].0;
    assert(line == "cd: not a directory: "@ + cd_target(args));
    assert(line.subrange(4, 4 + "not a directory"@.len() as int) =~= "not a directory"@);
    assert(crate::text::has_substring(line, "not a directory"@));
}

/// How a listing renders: directories indented with a trailing `/`
/// in the accent style, files indented in the normal style.
pub open spec fn ls_render(entries: Seq<(Seq<char>, bool)>) -> Seq<(Seq<char>, LineStyle)> {
    entries.map_values(
        |e: (Seq<char>, bool)|
            if e.1 {
                ("  "@ + e.0 + "/"@, LineStyle::Accent)
            } else {
                ("  "@ + e.0, LineStyle::Normal)
            },
    )
}

/// The output `ls` produces: the styled sorted listing of its target
/// directory, or an error naming what was asked for.
pub open spec fn ls_cmd_spec(
    fs: VirtualFs,
    cwd: Seq<char>,
    args: Seq<Seq<char>>,
    r: CommandOutput,
) -> bool {
    let target = if args.len() > 0 {
        resolve_spec(cwd, args[0])
    } else {
        cwd
    };
    let shown = if args.len() > 0 {
        args[0]
    } else {
        target
    };
    match ls_spec(fs.model(), target) {
        Some(es) => output_is(r, ls_render(es), false, true),
        None => output_is(
            r,
            seq![("ls: cannot access '"@ + shown + "': No such directory"@, LineStyle::Error)],
            false,
            true,
        ),
    }
}

/// Lists the target directory, sorted by name.
pub fn ls(fs: &VirtualFs, cwd: &str, args: &Vec<String>) -> (r: CommandOutput)
    ensures
        ls_cmd_spec(*fs, cwd@, seq_views(args@), r),
{
    proof {
        if args@.len() >= 1 {
            assert(seq_views(args@)[0] == args@[0]@);
        }
    }
    let target: String = if args.len() > 0 {
        fs.resolve_path(cwd, args[0].as_str())
    } else {
        cwd.to_owned()
    };

    match fs.ls(target.as_str()) {
        Some(entries) => {
            let ghost es = crate::vfs::entry_views(entries@);
            let mut lines: Vec<(String, LineStyle)> = Vec::new();
            let mut i: usize = 0;
            while i < entries.len()
                invariant
                    i <= entries@.len(),
                    es == crate::vfs::entry_views(entries@),
                    line_views(lines@) == ls_render(es.subrange(0, i as int)),
                decreases entries@.len() - i,
            {
                proof {
                    assert(es[i as int] == (entries@[i as int].0@, entries@[i as int].1));
                }
                if entries[i].1 {
                    let mut text = concat2("  ", entries[i].0.as_str());
                    text.append("/");
                    push_line(&mut lines, text, LineStyle::Accent);
                } else {
                    push_line(&mut lines, concat2("  ", entries[i].0.as_str()), LineStyle::Normal);
                }
                proof {
                    assert(line_views(lines@) =~= ls_render(es.subrange(0, i + 1)));
                }
                i = i + 1;
            }
            proof {
                assert(es.subrange(0, es.len() as int) =~= es);
            }
            CommandOutput::new(lines, false, true)
        },
        None => {
            let shown: &str = if args.len() > 0 {
                args[0].as_str()
            } else {
                target.as_str()
            };
            let mut text = concat2("ls: cannot access '", shown);
            text.append("': No such directory");
            proof {
                assert(text@ =~= "ls: cannot access '"@ + shown@ + "': No such directory"@);
            }
            let mut lines: Vec<(String, LineStyle)> = Vec::new();
            let ghost tv = text@;
            push_line(&mut lines, text, LineStyle::Error);
            proof {
                assert(line_views(lines@) =~= seq![(tv, LineStyle::Error)]);
            }
            CommandOutput::new(lines, false, true)
        },
    }
}

/// The output `cat` produces: the file's lines, or an error that
/// names the asked-for target and says what went wrong.
pub open spec fn cat_cmd_spec(
    fs: VirtualFs,
    cwd: Seq<char>,
    args: Seq<Seq<char>>,
    r: CommandOutput,
) -> bool {
    if args.len() == 0 {
        output_is(r, seq![("cat: missing file argument"@, LineStyle::Error)], false, true)
    } else {
        let target = args[0];
        let resolved = resolve_spec(cwd, target);
        if is_dir_spec(fs.model(), resolved) {
            output_is(
                r,
                seq![("cat: "@ + target + ": Is a directory"@, LineStyle::Error)],
                false,
                true,
            )
        } else if is_file_spec(fs.model(), resolved) {
            output_is(
                r,
                split_lines(fs.model()[resolved]->File_content).map_values(
                    |l: Seq<char>| (l, LineStyle::Normal),
                ),
                false,
                true,
            )
        } else {
            output_is(
                r,
                seq![("cat: "@ + target + ": No such file"@, LineStyle::Error)],
                false,
                true,
            )
        }
    }
}

/// Prints a file, one output line per source line.
pub fn cat(fs: &VirtualFs, cwd: &str, args: &Vec<String>) -> (r: CommandOutput)
    ensures
        cat_cmd_spec(*fs, cwd@, seq_views(args@), r),
{
    proof {
        if args@.len() >= 1 {
            assert(seq_views(args@)[0] == args@[0]@);
        }
    }
    if args.len() == 0 {
        let mut lines: Vec<(String, LineStyle)> = Vec::new();
        push_line(&mut lines, String::from_str("cat: missing file argument"), LineStyle::Error);
        proof {
            assert(line_views(lines@) =~= seq![
                ("cat: missing file argument"@, LineStyle::Error),
            ]);
        }
        return CommandOutput::new(lines, false, true);
    }

    let target = args[0].as_str();
    let resolved = fs.resolve_path(cwd, target);

    if fs.is_dir(resolved.as_str()) {
        let mut lines: Vec<(String, LineStyle)> = Vec::new();
        push_line(&mut lines, concat3("cat: ", target, ": Is a directory"), LineStyle::Error);
        proof {
            assert(line_views(lines@) =~= seq![
                ("cat: "@ + target@ + ": Is a directory"@, LineStyle::Error),
            ]);
        }
        return CommandOutput::new(lines, false, true);
    }

    match fs.cat(resolved.as_str()) {
        Some(content) => {
            let pieces = split_lines_exec(content.as_str());
            let ghost ls = split_lines(content@);
            let mut lines: Vec<(String, LineStyle)> = Vec::new();
            let mut i: usize = 0;
            while i < pieces.len()
                invariant
                    i <= pieces@.len(),
                    ls == seq_views(pieces@),
                    line_views(lines@) == ls.subrange(0, i as int).map_values(
                        |l: Seq<char>| (l, LineStyle::Normal),
                    ),
                decreases pieces@.len() - i,
            {
                proof {
                    assert(ls[i as int] == pieces@[i as int]@);
                }
                push_line(&mut lines, pieces[i].clone(), LineStyle::Normal);
                proof {
                    assert(line_views(lines@) =~= ls.subrange(0, i + 1).map_values(
                        |l: Seq<char>| (l, LineStyle::Normal),
                    ));
                }
                i = i + 1;
            }
            proof {
                assert(ls.subrange(0, ls.len() as int) =~= ls);
            }
            CommandOutput::new(lines, false, true)
        },
        None => {
            let mut lines: Vec<(String, LineStyle)> = Vec::new();
            push_line(&mut lines, concat3("cat: ", target, ": No such file"), LineStyle::Error);
            proof {
                assert(line_views(lines@) =~= seq![
                    ("cat: "@ + target@ + ": No such file"@, LineStyle::Error),
                ]);
            }
            CommandOutput::new(lines, false, true)
        },
    }
}

/// The output `tree` produces: the rendered walk from its target,
/// or an error naming the resolved target.
pub open spec fn tree_cmd_spec(
    fs: VirtualFs,
    cwd: Seq<char>,
    args: Seq<Seq<char>>,
    r: CommandOutput,
) -> bool {
    let target = if args.len() > 0 {
        resolve_spec(cwd, args[0])
    } else {
        cwd
    };
    match tree_spec(fs.model(), fs.max_path_len as nat, target, Seq::empty(), true, true) {
        Some(rendered) => output_is(
            r,
            rendered.map_values(|l: Seq<char>| (l, LineStyle::Normal)),
            false,
            true,
        ),
        None => output_is(
            r,
            seq![("tree: '"@ + target + "': No such directory"@, LineStyle::Error)],
            false,
            true,
        ),
    }
}

/// Renders the directory tree from the target.
pub fn tree(fs: &VirtualFs, cwd: &str, args: &Vec<String>) -> (r: CommandOutput)
    requires
        fs.wf(),
    ensures
        tree_cmd_spec(*fs, cwd@, seq_views(args@), r),
{
    proof {
        if args@.len() >= 1 {
            assert(seq_views(args@)[0] == args@[0]@);
        }
    }
    let target: String = if args.len() > 0 {
        fs.resolve_path(cwd, args[0].as_str())
    } else {
        cwd.to_owned()
    };

    proof {
        reveal_strlit("");
        assert(""@ =~= Seq::<char>::empty());
    }
    match fs.tree(target.as_str(), "", true) {
        Some(rendered) => {
            let ghost ls = seq_views(rendered@);
            let mut lines: Vec<(String, LineStyle)> = Vec::new();
            let mut i: usize = 0;
            while i < rendered.len()
                invariant
                    i <= rendered@.len(),
                    ls == seq_views(rendered@),
                    line_views(lines@) == ls.subrange(0, i as int).map_values(
                        |l: Seq<char>| (l, LineStyle::Normal),
                    ),
                decreases rendered@.len() - i,
            {
                proof {
                    assert(ls[i as int] == rendered@[i as int]@);
                }
                push_line(&mut lines, rendered[i].clone(), LineStyle::Normal);
                proof {
                    assert(line_views(lines@) =~= ls.subrange(0, i + 1).map_values(
                        |l: Seq<char>| (l, LineStyle::Normal),
                    ));
                }
                i = i + 1;
            }
            proof {
                assert(ls.subrange(0, ls.len() as int) =~= ls);
            }
            CommandOutput::new(lines, false, true)
        },
        None => {
            let mut text = concat2("tree: '", target.as_str());
            text.append("': No such directory");
            proof {
                assert(text@ =~= "tree: '"@ + target@ + "': No such directory"@);
            }
            let ghost tv = text@;
            let mut lines: Vec<(String, LineStyle)> = Vec::new();
            push_line(&mut lines, text, LineStyle::Error);
            proof {
                assert(line_views(lines@) =~= seq![(tv, LineStyle::Error)]);
            }
            CommandOutput::new(lines, false, true)
        },
    }
}

} // verus!
