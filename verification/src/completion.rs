//! Tab completion: command names while the first word is being
//! typed, path names afterwards. Input is replaced only when exactly
//! one candidate matches; otherwise it comes back unchanged.

use crate::registry::{all_commands, registry, CommandInfoV};
use crate::text::{
    concat3, is_prefix, lower, lower_str, scan_len, starts_with, trim, trim_spec,
};
use crate::vfs::{entry_views, ls_spec, resolve_spec, VirtualFs};
use vstd::prelude::*;
use vstd::string::StrSliceExecFns;
use vstd::string::StringExecFns;

verus! {

/// How many catalog names start with `p`.
pub open spec fn match_count(entries: Seq<CommandInfoV>, p: Seq<char>) -> nat
    decreases entries.len(),
{
    if entries.len() == 0 {
        0
    } else {
        match_count(entries.drop_last(), p) + (if is_prefix(p, entries.last().name) {
            1nat
        } else {
            0nat
        })
    }
}

/// The last catalog name starting with `p`; meaningful only when at
/// least one does.
pub open spec fn the_match(entries: Seq<CommandInfoV>, p: Seq<char>) -> Seq<char>
    decreases entries.len(),
{
    if entries.len() == 0 {
        Seq::empty()
    } else if is_prefix(p, entries.last().name) {
        entries.last().name
    } else {
        the_match(entries.drop_last(), p)
    }
}

/// How a listing entry completes: directories gain a trailing `/`.
pub open spec fn entry_completion(e: (Seq<char>, bool)) -> Seq<char> {
    if e.1 {
        e.0 + "/"@
    } else {
        e.0
    }
}

/// How many listing entries are named with prefix `p`.
pub open spec fn entry_match_count(es: Seq<(Seq<char>, bool)>, p: Seq<char>) -> nat
    decreases es.len(),
{
    if es.len() == 0 {
        0
    } else {
        entry_match_count(es.drop_last(), p) + (if is_prefix(p, es.last().0) {
            1nat
        } else {
            0nat
        })
    }
}

/// The completion of the last listing entry named with prefix `p`.
pub open spec fn entry_match(es: Seq<(Seq<char>, bool)>, p: Seq<char>) -> Seq<char>
    decreases es.len(),
{
    if es.len() == 0 {
        Seq::empty()
    } else if is_prefix(p, es.last().0) {
        entry_completion(es.last())
    } else {
        entry_match(es.drop_last(), p)
    }
}

/// The position after the last `/` of `s`; 0 when there is none.
pub open spec fn after_last_slash(s: Seq<char>) -> int
    decreases s.len(),
{
    if s.len() == 0 {
        0
    } else if s.last() == '/' {
        s.len() as int
    } else {
        after_last_slash(s.drop_last())
    }
}

/// What command-name completion turns the input into: the one
/// catalog name the lowercased trimmed input opens, plus a space, or
/// the input unchanged.
pub open spec fn complete_command_spec(input: Seq<char>) -> Seq<char> {
    let t = lower(trim_spec(input));
    if match_count(registry(), t) == 1 {
        the_match(registry(), t) + seq![' ']
    } else {
        input
    }
}

/// What path completion turns the input into: command word kept, the
/// partial path's directory part kept, and the one matching child
/// name filled in, directories with a trailing `/`; or the input
/// unchanged.
pub open spec fn complete_path_spec(input: Seq<char>, fs: VirtualFs, cwd: Seq<char>) -> Seq<char> {
    let t = trim_spec(input);
    let sp = scan_len(t, ' ') as int;
    let cmd_part = t.subrange(0, sp);
    let partial = t.subrange(sp + 1, t.len() as int);
    let cut = after_last_slash(partial);
    let dir_part = partial.subrange(0, cut);
    let name_prefix = partial.subrange(cut, partial.len() as int);
    let dir_path = if cut > 0 {
        resolve_spec(cwd, dir_part)
    } else {
        cwd
    };
    match ls_spec(fs.model(), dir_path) {
        Some(es) => if entry_match_count(es, name_prefix) == 1 {
            cmd_part + seq![' '] + dir_part + entry_match(es, name_prefix)
        } else {
            input
        },
        None => input,
    }
}

/// What one completion keystroke turns the input into.
pub open spec fn complete_spec(input: Seq<char>, fs: VirtualFs, cwd: Seq<char>) -> Seq<char> {
    let t = trim_spec(input);
    if scan_len(t, ' ') == t.len() {
        complete_command_spec(input)
    } else {
        complete_path_spec(input, fs, cwd)
    }
}

/// Completes a partly typed command name.
pub fn complete_command(input: &str) -> (r: String)
    ensures
        r@ == complete_command_spec(input@),
{
    let trimmed = trim(input);
    let t = lower_str(trimmed.as_str());
    let cmds = all_commands();
    let mut count: u64 = 0;
    let mut best: Option<String> = None;
    let mut i: usize = 0;
    proof {
        assert(registry().subrange(0, 0) =~= Seq::<CommandInfoV>::empty());
    }
    while i < cmds.len()
        invariant
            i <= cmds@.len(),
            crate::registry::info_views(cmds@) == registry(),
            count == match_count(registry().subrange(0, i as int), t@),
            count <= i,
            (match best {
                Some(b) => count >= 1 && b@ == the_match(registry().subrange(0, i as int), t@),
                None => count == 0,
            }),
        decreases cmds@.len() - i,
    {
        proof {
            assert(registry()[i as int] == cmds@[i as int].model());
            let pref = registry().subrange(0, i + 1);
            assert(pref.drop_last() =~= registry().subrange(0, i as int));
            assert(pref.last() == registry()[i as int]);
        }
        if starts_with(cmds[i].name.as_str(), t.as_str()) {
            count = count + 1;
            best = Some(cmds[i].name.clone());
        }
        i = i + 1;
    }
    proof {
        assert(registry().subrange(0, registry().len() as int) =~= registry());
    }
    if count == 1 {
        match best {
            Some(b) => {
                let mut r = b;
                crate::text::push_char(&mut r, ' ');
                r
            },
            None => input.to_owned(),
        }
    } else {
        input.to_owned()
    }
}

/// Completes a partly typed path after the command word.
pub fn complete_path(input: &str, fs: &VirtualFs, cwd: &str) -> (r: String)
    requires
        scan_len(trim_spec(input@), ' ') < trim_spec(input@).len(),
    ensures
        r@ == complete_path_spec(input@, *fs, cwd@),
{
    let trimmed = trim(input);
    let t = trimmed.as_str();
    let n = t.unicode_len();

    let mut sp: usize = 0;
    while sp < n && t.get_char(sp) != ' '
        invariant
            sp <= n,
            n == t@.len(),
            forall|k: int| 0 <= k < sp ==> t@[k] != ' ',
        decreases n - sp,
    {
        sp = sp + 1;
    }
    proof {
        crate::text::lemma_scan_len_is(t@, ' ', sp as int);
        assert(sp < n);
    }

    let cmd_part = t.substring_char(0, sp);
    let partial = t.substring_char(sp + 1, n);
    let pn = partial.unicode_len();

    let mut cut: usize = pn;
    while cut > 0 && partial.get_char(cut - 1) != '/'
        invariant
            cut <= pn,
            pn == partial@.len(),
            forall|k: int| cut <= k < pn ==> partial@[k] != '/',
        decreases cut,
    {
        cut = cut - 1;
    }
    proof {
        lemma_after_last_slash_is(partial@, cut as int);
    }
    let dir_part = partial.substring_char(0, cut);
    let name_prefix = partial.substring_char(cut, pn);

    let dir_path: String = if cut > 0 {
        fs.resolve_path(cwd, dir_part)
    } else {
        cwd.to_owned()
    };

    let entries = match fs.ls(dir_path.as_str()) {
        Some(es) => es,
        None => {
            return input.to_owned();
        },
    };
    let ghost es = entry_views(entries@);

    let mut count: u64 = 0;
    let mut best: Option<String> = None;
    let mut i: usize = 0;
    proof {
        assert(es.subrange(0, 0) =~= Seq::<(Seq<char>, bool)>::empty());
    }
    while i < entries.len()
        invariant
            i <= entries@.len(),
            es == entry_views(entries@),
            count == entry_match_count(es.subrange(0, i as int), name_prefix@),
            count <= i,
            (match best {
                Some(b) => count >= 1 && b@ == entry_match(es.subrange(0, i as int), name_prefix@),
                None => count == 0,
            }),
        decreases entries@.len() - i,
    {
        proof {
            assert(es[i as int] == (entries@[i as int].0@, entries@[i as int].1));
            let pref = es.subrange(0, i + 1);
            assert(pref.drop_last() =~= es.subrange(0, i as int));
            assert(pref.last() == es[i as int]);
        }
        if starts_with(entries[i].0.as_str(), name_prefix) {
            count = count + 1;
            if entries[i].1 {
                let mut c = entries[i].0.clone();
                c.append("/");
                best = Some(c);
            } else {
                best = Some(entries[i].0.clone());
            }
        }
        i = i + 1;
    }
    proof {
        assert(es.subrange(0, es.len() as int) =~= es);
    }

    if count == 1 {
        match best {
            Some(b) => {
                let mut r = concat3(cmd_part, " ", dir_part);
                r.append(b.as_str());
                proof {
                    reveal_strlit(" ");
                    assert(r@ =~= cmd_part@ + seq![' '] + dir_part@ + b@);
                }
                r
            },
            None => input.to_owned(),
        }
    } else {
        input.to_owned()
    }
}

proof fn lemma_after_last_slash_is(s: Seq<char>, cut: int)
    requires
        0 <= cut <= s.len(),
        forall|k: int| cut <= k < s.len() ==> s[k] != '/',
        cut == 0 || s[cut - 1] == '/',
    ensures
        after_last_slash(s) == cut,
    decreases s.len(),
{
    if cut == s.len() {
    } else {
        let t = s.drop_last();
        assert(s.last() != '/');
        assert forall|k: int| cut <= k < t.len() implies t[k] != '/' by {
            assert(t[k] == s[k]);
        }
        lemma_after_last_slash_is(t, cut);
    }
}

/// Applies one completion keystroke: command names before the first
/// space, path names after it.
pub fn complete(input: &str, fs: &VirtualFs, cwd: &str) -> (r: String)
    ensures
        r@ == complete_spec(input@, *fs, cwd@),
{
    let trimmed = trim(input);
    let t = trimmed.as_str();
    let n = t.unicode_len();
    let mut sp: usize = 0;
    while sp < n && t.get_char(sp) != ' '
        invariant
            sp <= n,
            n == t@.len(),
            forall|k: int| 0 <= k < sp ==> t@[k] != ' ',
        decreases n - sp,
    {
        sp = sp + 1;
    }
    proof {
        crate::text::lemma_scan_len_is(t@, ' ', sp as int);
    }
    if sp >= n {
        complete_command(input)
    } else {
        complete_path(input, fs, cwd)
    }
}

} // verus!
