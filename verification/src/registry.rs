//! The static catalog of recognized commands: name, description,
//! usage, and whether the entry is hidden from `help`.

use vstd::prelude::*;
use vstd::string::StringExecFns;

verus! {

/// One catalog entry.
pub struct CommandInfo {
    pub name: String,
    pub description: String,
    pub usage: String,
    pub hidden: bool,
}

/// Spec-level shape of a catalog entry.
pub struct CommandInfoV {
    pub name: Seq<char>,
    pub description: Seq<char>,
    pub usage: Seq<char>,
    pub hidden: bool,
}

impl CommandInfo {
    /// The spec-level shape of this entry.
    pub open spec fn model(self) -> CommandInfoV {
        CommandInfoV {
            name: self.name@,
            description: self.description@,
            usage: self.usage@,
            hidden: self.hidden,
        }
    }
}

/// The models of a sequence of entries.
pub open spec fn info_views(v: Seq<CommandInfo>) -> Seq<CommandInfoV> {
    v.map_values(|c: CommandInfo| c.model())
}

/// One spec catalog entry.
pub open spec fn entry(name: Seq<char>, description: Seq<char>, usage: Seq<char>, hidden: bool)
    -> CommandInfoV {
    CommandInfoV { name, description, usage, hidden }
}

/// The full command catalog, in display order.
pub open spec fn registry() -> Seq<CommandInfoV> {
    seq![
        entry("help"@, "Show available commands"@, "help [command]"@, false),
        entry("about"@, "Learn about me"@, "about"@, false),
        entry("skills"@, "View my technical skills"@, "skills"@, false),
        entry("projects"@, "Browse my projects"@, "projects"@, false),
        entry("contact"@, "Get my contact information"@, "contact"@, false),
        entry("resume"@, "View my resume"@, "resume"@, false),
        entry("clear"@, "Clear the terminal"@, "clear"@, false),
        entry("pwd"@, "Print current directory"@, "pwd"@, false),
        entry("cd"@, "Change directory"@, "cd <path>"@, false),
        entry("ls"@, "List directory contents"@, "ls [path]"@, false),
        entry("cat"@, "Display file contents"@, "cat <file>"@, false),
        entry("tree"@, "Show directory tree"@, "tree <path>"@, false),
        entry("theme"@, "Change terminal theme/effects"@, "theme [orange|green|amber|crt|matrix]"@, false),
        entry("history"@, "Show command history"@, "history"@, false),
        entry("echo"@, "Print text"@, "echo <text>"@, false),
        entry("whoami"@, "Print current user"@, "whoami"@, false),
        entry("date"@, "Print current date"@, "date"@, false),
        entry("sudo"@, "Superuser do"@, "sudo <command>"@, true),
        entry("rm"@, "Remove files"@, "rm <file>"@, true),
        entry("neofetch"@, "System info"@, "neofetch"@, true),
        entry("cowsay"@, "Cow says moo"@, "cowsay [message]"@, true),
        entry("exit"@, "Exit terminal"@, "exit"@, true),
        entry("ttt"@, "Play Tic-Tac-Toe"@, "ttt"@, false),
        entry("typing"@, "Typing speed test"@, "typing"@, false),
    ]
}

fn push_info(v: &mut Vec<CommandInfo>, name: &str, description: &str, usage: &str, hidden: bool)
    ensures
        info_views(final(v)@) == info_views(old(v)@).push(
            entry(name@, description@, usage@, hidden),
        ),
{
    v.push(
        CommandInfo {
            name: String::from_str(name),
            description: String::from_str(description),
            usage: String::from_str(usage),
            hidden,
        },
    );
    proof {
        assert(info_views(v@) =~= info_views(v@.drop_last()).push(
            entry(name@, description@, usage@, hidden),
        ));
        assert(v@.drop_last() =~= old(v)@);
    }
}

/// Every recognized command, visible ones and hidden easter eggs.
pub fn all_commands() -> (r: Vec<CommandInfo>)
    ensures
        info_views(r@) == registry(),
{
    let mut v: Vec<CommandInfo> = Vec::new();
    push_info(&mut v, "help", "Show available commands", "help [command]", false);
    push_info(&mut v, "about", "Learn about me", "about", false);
    push_info(&mut v, "skills", "View my technical skills", "skills", false);
    push_info(&mut v, "projects", "Browse my projects", "projects", false);
    push_info(&mut v, "contact", "Get my contact information", "contact", false);
    push_info(&mut v, "resume", "View my resume", "resume", false);
    push_info(&mut v, "clear", "Clear the terminal", "clear", false);
    push_info(&mut v, "pwd", "Print current directory", "pwd", false);
    push_info(&mut v, "cd", "Change directory", "cd <path>", false);
    push_info(&mut v, "ls", "List directory contents", "ls [path]", false);
    push_info(&mut v, "cat", "Display file contents", "cat <file>", false);
    push_info(&mut v, "tree", "Show directory tree", "tree <path>", false);
    push_info(&mut v, "theme", "Change terminal theme/effects", "theme [orange|green|amber|crt|matrix]", false);
    push_info(&mut v, "history", "Show command history", "history", false);
    push_info(&mut v, "echo", "Print text", "echo <text>", false);
    push_info(&mut v, "whoami", "Print current user", "whoami", false);
    push_info(&mut v, "date", "Print current date", "date", false);
    push_info(&mut v, "sudo", "Superuser do", "sudo <command>", true);
    push_info(&mut v, "rm", "Remove files", "rm <file>", true);
    push_info(&mut v, "neofetch", "System info", "neofetch", true);
    push_info(&mut v, "cowsay", "Cow says moo", "cowsay [message]", true);
    push_info(&mut v, "exit", "Exit terminal", "exit", true);
    push_info(&mut v, "ttt", "Play Tic-Tac-Toe", "ttt", false);
    push_info(&mut v, "typing", "Typing speed test", "typing", false);
    proof {
        assert(info_views(v@) =~= registry());
    }
    v
}

} // verus!
