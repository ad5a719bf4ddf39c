//! Static portfolio text: the seed files of the virtual filesystem
//! and the blocks behind the content commands. Pure data, no logic.

use vstd::prelude::*;
use vstd::string::StringExecFns;

verus! {

/// Content of `~/about.txt`.
pub open spec fn about_text() -> Seq<char> {
    "Hey! I'm Pruthvi.\nSenior Software Engineer with experience in full-stack and mobile development.\n\nI love building things that live on the web and in your pocket.\nCurrently exploring secOps and Platform Engineering professionally, Rust and WebAssembly as a hobby.\n\nType 'ls' to explore my files, or 'help' for all commands."@
}

/// Content of `~/contact.txt`.
pub open spec fn contact_text() -> Seq<char> {
    "Email:    iamparne@email.com\nGitHub:   github.com/Superrehtard\nLinkedIn: linkedin.com/in/iamparne\nPersonal: iamparne.dev"@
}

/// Content of `~/resume.txt`.
pub open spec fn resume_text() -> Seq<char> {
    "[Resume content coming soon]\n\nFor now, check out 'about', 'skills', and 'projects'."@
}

/// Content of `~/skills/languages.txt`.
pub open spec fn skills_languages_text() -> Seq<char> {
    "Programming Languages\n=====================\nSwift       ████████████████████░░  Advanced\nTypeScript  ████████████████████░░  Advanced\nJava        ██████████████████░░░░  Proficient\nPython      ████████████████░░░░░░  Proficient\nJavaScript  ████████████████░░░░░░  Proficient\nRust        ██████████████░░░░░░░░  Intermediate"@
}

/// Content of `~/skills/frameworks.txt`.
pub open spec fn skills_frameworks_text() -> Seq<char> {
    "Frameworks & Libraries\n======================\nReact               Frontend\nLeptos              Frontend (Rust/WASM)\nSwiftUI / UIKit     iOS\nActix / Axum        Backend (Rust)"@
}

/// Content of `~/skills/tools.txt`.
pub open spec fn skills_tools_text() -> Seq<char> {
    "Tools & Infrastructure\n======================\nGit / GitHub        Version Control\nDocker / K8s        Containers\nAWS / GCP           Cloud\nPostgreSQL / Redis  Databases\nCI/CD               GitHub Actions, Jenkins\nFigma               Design Collaboration"@
}

/// Content of `~/projects/project1/README.md`.
pub open spec fn project1_readme() -> Seq<char> {
    "# Terminal Portfolio\n\nA terminal-style portfolio website built with Rust, Leptos, and WebAssembly.\n\nTech: Rust, Leptos, WASM, CSS\nLink: iamparne.dev\n\nFeatures:\n- Command-line interface for portfolio navigation\n- Virtual filesystem simulation\n- Easter eggs and mini-games"@
}

/// Content of `~/projects/project2/README.md`.
pub open spec fn project2_readme() -> Seq<char> {
    "# Project Two\n\nDescription placeholder.\n\nTech: [tech stack]\nStatus: [status]\nLink: [url]"@
}

/// Content of `~/projects/project3/README.md`.
pub open spec fn project3_readme() -> Seq<char> {
    "# Project Three\n\nDescription placeholder.\n\nTech: [tech stack]\nStatus: [status]\nLink: [url]"@
}

/// A content block: text lines, each flagged when it is a heading or
/// link to set in the accent style.
pub open spec fn block_views(b: Seq<(String, bool)>) -> Seq<(Seq<char>, bool)> {
    b.map_values(|l: (String, bool)| (l.0@, l.1))
}

fn push_block_line(b: &mut Vec<(String, bool)>, text: &str, accent: bool)
    ensures
        block_views(final(b)@) == block_views(old(b)@).push((text@, accent)),
{
    b.push((String::from_str(text), accent));
    proof {
        assert(block_views(b@) =~= block_views(b@.drop_last()).push((text@, accent)));
        assert(b@.drop_last() =~= old(b)@);
    }
}

/// The block behind the `about` command.
pub open spec fn about_block() -> Seq<(Seq<char>, bool)> {
    seq![
        (""@, false),
        ("Hey! I'm Pruthvi Parne, a Senior Software Engineer."@, true),
        ("Full-stack developer with mobile experience."@, false),
        ("Currently exploring secOps and Platform Engineering professionally,"@, false),
        ("Rust and WebAssembly as a hobby."@, false),
        (""@, false),
        ("Type 'skills' to see what I work with, or 'projects' to see what I've built."@, false),
        (""@, false),
    ]
}

/// Builds the `about` block.
pub fn about_lines() -> (r: Vec<(String, bool)>)
    ensures
        block_views(r@) == about_block(),
{
    let mut b: Vec<(String, bool)> = Vec::new();
    push_block_line(&mut b, "", false);
    push_block_line(&mut b, "Hey! I'm Pruthvi Parne, a Senior Software Engineer.", true);
    push_block_line(&mut b, "Full-stack developer with mobile experience.", false);
    push_block_line(
        &mut b,
        "Currently exploring secOps and Platform Engineering professionally,",
        false,
    );
    push_block_line(&mut b, "Rust and WebAssembly as a hobby.", false);
    push_block_line(&mut b, "", false);
    push_block_line(
        &mut b,
        "Type 'skills' to see what I work with, or 'projects' to see what I've built.",
        false,
    );
    push_block_line(&mut b, "", false);
    proof {
        assert(block_views(b@) =~= about_block());
    }
    b
}

/// The block behind the `skills` command.
pub open spec fn skills_block() -> Seq<(Seq<char>, bool)> {
    seq![
        (""@, false),
        ("Languages:   Swift, TypeScript, Java, Python, JavaScript, Rust"@, false),
        ("Frontend:    React, Leptos"@, false),
        ("Mobile:      SwiftUI, UIKit"@, false),
        ("Backend:     Actix, Axum"@, false),
        ("Tools:       Git, Docker, K8s, AWS/GCP, PostgreSQL, Redis"@, false),
        (""@, false),
        ("Run 'cat ~/skills/languages.txt' for detailed breakdown."@, false),
        (""@, false),
    ]
}

/// Builds the `skills` block.
pub fn skills_lines() -> (r: Vec<(String, bool)>)
    ensures
        block_views(r@) == skills_block(),
{
    let mut b: Vec<(String, bool)> = Vec::new();
    push_block_line(&mut b, "", false);
    push_block_line(&mut b, "Languages:   Swift, TypeScript, Java, Python, JavaScript, Rust", false);
    push_block_line(&mut b, "Frontend:    React, Leptos", false);
    push_block_line(&mut b, "Mobile:      SwiftUI, UIKit", false);
    push_block_line(&mut b, "Backend:     Actix, Axum", false);
    push_block_line(&mut b, "Tools:       Git, Docker, K8s, AWS/GCP, PostgreSQL, Redis", false);
    push_block_line(&mut b, "", false);
    push_block_line(&mut b, "Run 'cat ~/skills/languages.txt' for detailed breakdown.", false);
    push_block_line(&mut b, "", false);
    proof {
        assert(block_views(b@) =~= skills_block());
    }
    b
}

/// The block behind the `projects` command.
pub open spec fn projects_block() -> Seq<(Seq<char>, bool)> {
    seq![
        (""@, false),
        ("1. Terminal Portfolio"@, true),
        ("A terminal-style portfolio built with Rust + Leptos + WASM"@, false),
        (""@, false),
        ("2. CNH Mobile App"@, true),
        ("Native iOS application for ag-tech company Case New Holland"@, false),
        (""@, false),
        ("3. Corteva Fungicide Timing"@, true),
        ("Frontend application for Corteva/Granular"@, false),
        (""@, false),
        ("Run 'cat ~/projects/project1/README.md' for details."@, false),
        (""@, false),
    ]
}

/// Builds the `projects` block.
pub fn projects_lines() -> (r: Vec<(String, bool)>)
    ensures
        block_views(r@) == projects_block(),
{
    let mut b: Vec<(String, bool)> = Vec::new();
    push_block_line(&mut b, "", false);
    push_block_line(&mut b, "1. Terminal Portfolio", true);
    push_block_line(&mut b, "A terminal-style portfolio built with Rust + Leptos + WASM", false);
    push_block_line(&mut b, "", false);
    push_block_line(&mut b, "2. CNH Mobile App", true);
    push_block_line(&mut b, "Native iOS application for ag-tech company Case New Holland", false);
    push_block_line(&mut b, "", false);
    push_block_line(&mut b, "3. Corteva Fungicide Timing", true);
    push_block_line(&mut b, "Frontend application for Corteva/Granular", false);
    push_block_line(&mut b, "", false);
    push_block_line(&mut b, "Run 'cat ~/projects/project1/README.md' for details.", false);
    push_block_line(&mut b, "", false);
    proof {
        assert(block_views(b@) =~= projects_block());
    }
    b
}

/// The block behind the `contact` command.
pub open spec fn contact_block() -> Seq<(Seq<char>, bool)> {
    seq![
        (""@, false),
        ("  Email:    iamparne@email.com"@, false),
        ("  GitHub:   github.com/Superrehtard"@, true),
        ("  LinkedIn: linkedin.com/in/iamparne"@, true),
        ("  Website:  iamparne.dev"@, true),
        (""@, false),
    ]
}

/// Builds the `contact` block.
pub fn contact_lines() -> (r: Vec<(String, bool)>)
    ensures
        block_views(r@) == contact_block(),
{
    let mut b: Vec<(String, bool)> = Vec::new();
    push_block_line(&mut b, "", false);
    push_block_line(&mut b, "  Email:    iamparne@email.com", false);
    push_block_line(&mut b, "  GitHub:   github.com/Superrehtard", true);
    push_block_line(&mut b, "  LinkedIn: linkedin.com/in/iamparne", true);
    push_block_line(&mut b, "  Website:  iamparne.dev", true);
    push_block_line(&mut b, "", false);
    proof {
        assert(block_views(b@) =~= contact_block());
    }
    b
}

/// The block behind the `resume` command.
pub open spec fn resume_block() -> Seq<(Seq<char>, bool)> {
    seq![
        (""@, false),
        ("  Resume download coming soon!"@, false),
        ("  For now, type 'about', 'skills', or 'projects'."@, false),
        (""@, false),
    ]
}

/// Builds the `resume` block.
pub fn resume_lines() -> (r: Vec<(String, bool)>)
    ensures
        block_views(r@) == resume_block(),
{
    let mut b: Vec<(String, bool)> = Vec::new();
    push_block_line(&mut b, "", false);
    push_block_line(&mut b, "  Resume download coming soon!", false);
    push_block_line(&mut b, "  For now, type 'about', 'skills', or 'projects'.", false);
    push_block_line(&mut b, "", false);
    proof {
        assert(block_views(b@) =~= resume_block());
    }
    b
}

} // verus!
