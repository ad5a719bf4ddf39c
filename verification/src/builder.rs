//! Seeds the one fixed hierarchy the shell serves: root files, a
//! skills directory, and three project directories.

use crate::content;
use crate::vfs::{last_segment, NodeModel, VirtualFs};
use vstd::prelude::*;

verus! {

/// The mapping `build_default_fs` constructs.
pub open spec fn default_fs_model() -> Map<Seq<char>, NodeModel> {
    Map::empty().insert(
        "~"@,
        NodeModel::Dir {
            name: last_segment("~"@),
            children: seq![
                "about.txt"@,
                "contact.txt"@,
                "resume.txt"@,
                "skills"@,
                "projects"@,
            ],
        },
    ).insert(
        "~/about.txt"@,
        NodeModel::File { name: last_segment("~/about.txt"@), content: content::about_text() },
    ).insert(
        "~/contact.txt"@,
        NodeModel::File { name: last_segment("~/contact.txt"@), content: content::contact_text() },
    ).insert(
        "~/resume.txt"@,
        NodeModel::File { name: last_segment("~/resume.txt"@), content: content::resume_text() },
    ).insert(
        "~/skills"@,
        NodeModel::Dir {
            name: last_segment("~/skills"@),
            children: seq!["languages.txt"@, "frameworks.txt"@, "tools.txt"@],
        },
    ).insert(
        "~/skills/languages.txt"@,
        NodeModel::File {
            name: last_segment("~/skills/languages.txt"@),
            content: content::skills_languages_text(),
        },
    ).insert(
        "~/skills/frameworks.txt"@,
        NodeModel::File {
            name: last_segment("~/skills/frameworks.txt"@),
            content: content::skills_frameworks_text(),
        },
    ).insert(
        "~/skills/tools.txt"@,
        NodeModel::File {
            name: last_segment("~/skills/tools.txt"@),
            content: content::skills_tools_text(),
        },
    ).insert(
        "~/projects"@,
        NodeModel::Dir {
            name: last_segment("~/projects"@),
            children: seq!["project1"@, "project2"@, "project3"@],
        },
    ).insert(
        "~/projects/project1"@,
        NodeModel::Dir { name: last_segment("~/projects/project1"@), children: seq!["README.md"@] },
    ).insert(
        "~/projects/project1/README.md"@,
        NodeModel::File {
            name: last_segment("~/projects/project1/README.md"@),
            content: content::project1_readme(),
        },
    ).insert(
        "~/projects/project2"@,
        NodeModel::Dir { name: last_segment("~/projects/project2"@), children: seq!["README.md"@] },
    ).insert(
        "~/projects/project2/README.md"@,
        NodeModel::File {
            name: last_segment("~/projects/project2/README.md"@),
            content: content::project2_readme(),
        },
    ).insert(
        "~/projects/project3"@,
        NodeModel::Dir { name: last_segment("~/projects/project3"@), children: seq!["README.md"@] },
    ).insert(
        "~/projects/project3/README.md"@,
        NodeModel::File {
            name: last_segment("~/projects/project3/README.md"@),
            content: content::project3_readme(),
        },
    )
}

/// Builds the fixed hierarchy served at startup.
pub fn build_default_fs() -> (r: VirtualFs)
    ensures
        r.wf(),
        r.model() == default_fs_model(),
{
    let mut fs = VirtualFs::new();

    let mut root_children: Vec<&str> = Vec::new();
    root_children.push("about.txt");
    root_children.push("contact.txt");
    root_children.push("resume.txt");
    root_children.push("skills");
    root_children.push("projects");
    proof {
        assert(crate::vfs::str_views(root_children@) =~= seq![
            "about.txt"@,
            "contact.txt"@,
            "resume.txt"@,
            "skills"@,
            "projects"@,
        ]);
    }
    fs.add_dir("~", root_children.as_slice());

    fs.add_file("~/about.txt", "Hey! I'm Pruthvi.\nSenior Software Engineer with experience in full-stack and mobile development.\n\nI love building things that live on the web and in your pocket.\nCurrently exploring secOps and Platform Engineering professionally, Rust and WebAssembly as a hobby.\n\nType 'ls' to explore my files, or 'help' for all commands.");
    fs.add_file("~/contact.txt", "Email:    iamparne@email.com\nGitHub:   github.com/Superrehtard\nLinkedIn: linkedin.com/in/iamparne\nPersonal: iamparne.dev");
    fs.add_file("~/resume.txt", "[Resume content coming soon]\n\nFor now, check out 'about', 'skills', and 'projects'.");

    let mut skills_children: Vec<&str> = Vec::new();
    skills_children.push("languages.txt");
    skills_children.push("frameworks.txt");
    skills_children.push("tools.txt");
    proof {
        assert(crate::vfs::str_views(skills_children@) =~= seq![
            "languages.txt"@,
            "frameworks.txt"@,
            "tools.txt"@,
        ]);
    }
    fs.add_dir("~/skills", skills_children.as_slice());
    fs.add_file("~/skills/languages.txt", "Programming Languages\n=====================\nSwift       ████████████████████░░  Advanced\nTypeScript  ████████████████████░░  Advanced\nJava        ██████████████████░░░░  Proficient\nPython      ████████████████░░░░░░  Proficient\nJavaScript  ████████████████░░░░░░  Proficient\nRust        ██████████████░░░░░░░░  Intermediate");
    fs.add_file("~/skills/frameworks.txt", "Frameworks & Libraries\n======================\nReact               Frontend\nLeptos              Frontend (Rust/WASM)\nSwiftUI / UIKit     iOS\nActix / Axum        Backend (Rust)");
    fs.add_file("~/skills/tools.txt", "Tools & Infrastructure\n======================\nGit / GitHub        Version Control\nDocker / K8s        Containers\nAWS / GCP           Cloud\nPostgreSQL / Redis  Databases\nCI/CD               GitHub Actions, Jenkins\nFigma               Design Collaboration");

    let mut project_children: Vec<&str> = Vec::new();
    project_children.push("project1");
    project_children.push("project2");
    project_children.push("project3");
    proof {
        assert(crate::vfs::str_views(project_children@) =~= seq![
            "project1"@,
            "project2"@,
            "project3"@,
        ]);
    }
    fs.add_dir("~/projects", project_children.as_slice());

    let mut readme_only: Vec<&str> = Vec::new();
    readme_only.push("README.md");
    proof {
        assert(crate::vfs::str_views(readme_only@) =~= seq!["README.md"@]);
    }
    fs.add_dir("~/projects/project1", readme_only.as_slice());
    fs.add_file("~/projects/project1/README.md", "# Terminal Portfolio\n\nA terminal-style portfolio website built with Rust, Leptos, and WebAssembly.\n\nTech: Rust, Leptos, WASM, CSS\nLink: iamparne.dev\n\nFeatures:\n- Command-line interface for portfolio navigation\n- Virtual filesystem simulation\n- Easter eggs and mini-games");

    fs.add_dir("~/projects/project2", readme_only.as_slice());
    fs.add_file("~/projects/project2/README.md", "# Project Two\n\nDescription placeholder.\n\nTech: [tech stack]\nStatus: [status]\nLink: [url]");

    fs.add_dir("~/projects/project3", readme_only.as_slice());
    fs.add_file("~/projects/project3/README.md", "# Project Three\n\nDescription placeholder.\n\nTech: [tech stack]\nStatus: [status]\nLink: [url]");

    proof {
        assert(fs.model() =~= default_fs_model());
    }
    fs
}

} // verus!
