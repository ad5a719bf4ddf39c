//! The read-only virtual filesystem: an association from absolute
//! path strings to file and directory nodes, with `~` as the root.
//!
//! Paths are modeled as character sequences and the whole store as a
//! `Map` from path to node model, so every operation has an exact
//! functional specification.

use crate::text::{
    concat2, concat3, join_char_spec, lemma_scan_len_is, lex_le, scan_len, seq_views,
    split_char_spec, split_str, str_eq,
};
use vstd::prelude::*;
use vstd::string::StrSliceExecFns;
use vstd::string::StringExecFns;

verus! {

/// One node of the virtual filesystem.
pub enum VfsNode {
    File { name: String, content: String },
    Directory { name: String, children: Vec<String> },
}

/// Spec-level shape of a node: names and contents as sequences.
pub enum NodeModel {
    File { name: Seq<char>, content: Seq<char> },
    Dir { name: Seq<char>, children: Seq<Seq<char>> },
}

impl VfsNode {
    /// The spec-level shape of this node.
    pub open spec fn model(self) -> NodeModel {
        match self {
            VfsNode::File { name, content } => NodeModel::File {
                name: name@,
                content: content@,
            },
            VfsNode::Directory { name, children } => NodeModel::Dir {
                name: name@,
                children: seq_views(children@),
            },
        }
    }
}

/// The mapping an association list denotes; a later entry for the
/// same path wins, as an insert-based store would behave.
pub open spec fn map_of(entries: Seq<(String, VfsNode)>) -> Map<Seq<char>, NodeModel>
    decreases entries.len(),
{
    if entries.len() == 0 {
        Map::empty()
    } else {
        map_of(entries.drop_last()).insert(entries.last().0@, entries.last().1.model())
    }
}

/// In-memory store of the whole hierarchy.
pub struct VirtualFs {
    /// Path/node pairs; resolved against the end on duplicate paths.
    pub nodes: Vec<(String, VfsNode)>,
    /// An upper bound on the length of every stored path, used to
    /// bound the depth of recursive walks.
    pub max_path_len: usize,
}

impl VirtualFs {
    /// The mapping from absolute path to node.
    pub open spec fn model(self) -> Map<Seq<char>, NodeModel> {
        map_of(self.nodes@)
    }

    /// Every stored path is within the recorded length bound.
    pub open spec fn wf(self) -> bool {
        forall|k: int|
            0 <= k < self.nodes@.len() ==> (#[trigger] self.nodes@[k]).0@.len()
                <= self.max_path_len
    }

    /// An empty filesystem.
    pub fn new() -> (r: Self)
        ensures
            r.wf(),
            r.model() == Map::<Seq<char>, NodeModel>::empty(),
    {
        VirtualFs { nodes: Vec::new(), max_path_len: 0 }
    }
}

proof fn lemma_map_of_found(entries: Seq<(String, VfsNode)>, i: int)
    requires
        0 <= i < entries.len(),
        forall|k: int| i < k < entries.len() ==> (#[trigger] entries[k]).0@ != entries[i].0@,
    ensures
        map_of(entries).contains_key(entries[i].0@),
        map_of(entries)[entries[i].0@] == entries[i].1.model(),
    decreases entries.len(),
{
    if i == entries.len() - 1 {
    } else {
        let front = entries.drop_last();
        assert forall|k: int| i < k < front.len() implies (#[trigger] front[k]).0@
            != front[i].0@ by {
            assert(front[k] == entries[k]);
        }
        lemma_map_of_found(front, i);
    }
}

proof fn lemma_map_of_absent(entries: Seq<(String, VfsNode)>, path: Seq<char>)
    requires
        forall|k: int| 0 <= k < entries.len() ==> (#[trigger] entries[k]).0@ != path,
    ensures
        !map_of(entries).contains_key(path),
    decreases entries.len(),
{
    if entries.len() > 0 {
        lemma_map_of_absent(entries.drop_last(), path);
    }
}

impl VirtualFs {
    /// Looks a path up, preferring the latest entry.
    fn get_node(&self, path: &str) -> (r: Option<&VfsNode>)
        ensures
            match r {
                Some(n) => self.model().contains_key(path@) && n.model() == self.model()[path@],
                None => !self.model().contains_key(path@),
            },
    {
        let n = self.nodes.len();
        let mut i: usize = n;
        while i > 0
            invariant
                i <= n,
                n == self.nodes@.len(),
                forall|k: int| i <= k < n ==> (#[trigger] self.nodes@[k]).0@ != path@,
            decreases i,
        {
            i = i - 1;
            if str_eq(self.nodes[i].0.as_str(), path) {
                proof {
                    lemma_map_of_found(self.nodes@, i as int);
                }
                return Some(&self.nodes[i].1);
            }
        }
        proof {
            lemma_map_of_absent(self.nodes@, path@);
        }
        None
    }

    /// Inserts a directory node for `path` with the given child names.
    pub fn add_dir(&mut self, path: &str, children: &[&str])
        requires
            old(self).wf(),
        ensures
            final(self).wf(),
            final(self).model() == old(self).model().insert(
                path@,
                NodeModel::Dir { name: last_segment(path@), children: str_views(children@) },
            ),
    {
        let name = path_basename(path);
        let mut owned: Vec<String> = Vec::new();
        let mut i: usize = 0;
        while i < children.len()
            invariant
                i <= children@.len(),
                seq_views(owned@) == str_views(children@.subrange(0, i as int)),
            decreases children@.len() - i,
        {
            let c: &str = children[i];
            owned.push(c.to_owned());
            proof {
                assert(seq_views(owned@) =~= seq_views(owned@.drop_last()).push(c@));
                assert(str_views(children@.subrange(0, i + 1)) =~= str_views(
                    children@.subrange(0, i as int),
                ).push(children@[i as int]@));
            }
            i = i + 1;
        }
        proof {
            assert(children@.subrange(0, children@.len() as int) =~= children@);
        }
        let node = VfsNode::Directory { name, children: owned };
        self.push_entry(path, node);
    }

    /// Inserts a file node for `path` with the given content.
    pub fn add_file(&mut self, path: &str, content: &str)
        requires
            old(self).wf(),
        ensures
            final(self).wf(),
            final(self).model() == old(self).model().insert(
                path@,
                NodeModel::File { name: last_segment(path@), content: content@ },
            ),
    {
        let name = path_basename(path);
        let node = VfsNode::File { name, content: content.to_owned() };
        self.push_entry(path, node);
    }

    /// Appends one entry, widening the path-length bound as needed.
    fn push_entry(&mut self, path: &str, node: VfsNode)
        requires
            old(self).wf(),
        ensures
            final(self).wf(),
            final(self).model() == old(self).model().insert(path@, node.model()),
    {
        let len = path.unicode_len();
        if len > self.max_path_len {
            self.max_path_len = len;
        }
        self.nodes.push((path.to_owned(), node));
        proof {
            assert(self.nodes@.drop_last() =~= old(self).nodes@);
        }
    }
}

/// The piece of `p` after its last separator; `p` itself if none.
pub open spec fn last_segment(p: Seq<char>) -> Seq<char> {
    split_char_spec(p, '/').last()
}

/// The views of a sequence of string slices.
pub open spec fn str_views(ss: Seq<&str>) -> Seq<Seq<char>> {
    ss.map_values(|s: &str| s@)
}

/// The name component of a path: everything after the last `/`.
pub fn path_basename(path: &str) -> (r: String)
    ensures
        r@ == last_segment(path@),
{
    let parts = split_str(path, '/');
    proof {
        assert(split_char_spec(path@, '/').len() >= 1);
        assert(parts@[parts@.len() - 1]@ == seq_views(parts@)[parts@.len() - 1]);
    }
    parts[parts.len() - 1].clone()
}

/// Folds path pieces left to right: empty and `.` pieces vanish,
/// `..` pops the previous piece unless only the root guard `~` is
/// left, anything else is kept.
pub open spec fn norm_fold(parts: Seq<Seq<char>>) -> Seq<Seq<char>>
    decreases parts.len(),
{
    if parts.len() == 0 {
        Seq::empty()
    } else {
        let prev = norm_fold(parts.drop_last());
        let p = parts.last();
        if p == ""@ || p == "."@ {
            prev
        } else if p == ".."@ {
            if prev.len() > 1 || (prev.len() == 1 && prev[0] != "~"@) {
                prev.drop_last()
            } else {
                prev
            }
        } else {
            prev.push(p)
        }
    }
}

/// The canonical form of a path string.
pub open spec fn normalize_spec(path: Seq<char>) -> Seq<char> {
    let parts = norm_fold(split_char_spec(path, '/'));
    if parts.len() == 0 {
        "~"@
    } else {
        join_char_spec(parts, '/')
    }
}

/// Whether a path string is anchored at the root: it opens with `~`.
pub open spec fn rooted(path: Seq<char>) -> bool {
    path.len() >= 1 && path[0] == '~'
}

/// Where a path input names, relative to the working directory.
pub open spec fn resolve_spec(cwd: Seq<char>, input: Seq<char>) -> Seq<char> {
    if rooted(input) {
        normalize_spec(input)
    } else {
        normalize_spec(cwd + seq!['/'] + input)
    }
}

impl VirtualFs {
    /// Canonicalizes a path string: splits it on `/`, drops empty and
    /// `.` pieces, resolves `..` against the root guard, and joins
    /// the rest; `~` when nothing remains.
    pub fn normalize(&self, path: &str) -> (r: String)
        ensures
            r@ == normalize_spec(path@),
    {
        let parts = split_str(path, '/');
        let mut kept: Vec<String> = Vec::new();
        let mut i: usize = 0;
        proof {
            assert(seq_views(parts@).subrange(0, 0) =~= Seq::<Seq<char>>::empty());
        }
        while i < parts.len()
            invariant
                i <= parts@.len(),
                seq_views(parts@) == split_char_spec(path@, '/'),
                seq_views(kept@) == norm_fold(seq_views(parts@).subrange(0, i as int)),
            decreases parts@.len() - i,
        {
            let p = &parts[i];
            proof {
                let pref = seq_views(parts@).subrange(0, i + 1);
                assert(pref.drop_last() =~= seq_views(parts@).subrange(0, i as int));
                assert(pref.last() == parts@[i as int]@);
            }
            if str_eq(p.as_str(), "") || str_eq(p.as_str(), ".") {
            } else if str_eq(p.as_str(), "..") {
                let pop = if kept.len() > 1 {
                    true
                } else if kept.len() == 1 {
                    !str_eq(kept[0].as_str(), "~")
                } else {
                    false
                };
                proof {
                    assert(kept@.len() >= 1 ==> seq_views(kept@)[0] == kept@[0]@);
                }
                if pop {
                    let ghost before = kept@;
                    kept.pop();
                    proof {
                        assert(seq_views(kept@) =~= seq_views(before).drop_last());
                    }
                }
            } else {
                kept.push(p.clone());
                proof {
                    assert(seq_views(kept@) =~= seq_views(kept@.drop_last()).push(
                        parts@[i as int]@,
                    ));
                }
            }
            proof {
                assert(seq_views(kept@) =~= norm_fold(seq_views(parts@).subrange(0, i + 1)));
            }
            i = i + 1;
        }
        proof {
            assert(seq_views(parts@).subrange(0, parts@.len() as int) =~= seq_views(parts@));
        }
        if kept.len() == 0 {
            "~".to_owned()
        } else {
            crate::text::join_strings(&kept, '/')
        }
    }

    /// Resolves `input` against the working directory `cwd`: an
    /// input that opens with `~` stands alone, anything else is
    /// appended to `cwd`; the combination is then canonicalized.
    pub fn resolve_path(&self, cwd: &str, input: &str) -> (r: String)
        ensures
            r@ == resolve_spec(cwd@, input@),
    {
        let absolute = input.unicode_len() >= 1 && input.get_char(0) == '~';
        if absolute {
            self.normalize(input)
        } else {
            let combined = concat3(cwd, "/", input);
            proof {
                reveal_strlit("/");
                assert(combined@ =~= cwd@ + seq!['/'] + input@);
            }
            self.normalize(combined.as_str())
        }
    }
}

/// Whether the model maps `path` to a directory.
pub open spec fn is_dir_spec(m: Map<Seq<char>, NodeModel>, path: Seq<char>) -> bool {
    m.contains_key(path) && m[path] is Dir
}

/// Whether the model maps `path` to a file.
pub open spec fn is_file_spec(m: Map<Seq<char>, NodeModel>, path: Seq<char>) -> bool {
    m.contains_key(path) && m[path] is File
}

/// The absolute path of a child of `path` named `name`.
pub open spec fn child_path_spec(path: Seq<char>, name: Seq<char>) -> Seq<char> {
    path + seq!['/'] + name
}

impl VirtualFs {
    /// Whether `path` names a directory. An absent path is neither a
    /// directory nor a file.
    pub fn is_dir(&self, path: &str) -> (r: bool)
        ensures
            r == is_dir_spec(self.model(), path@),
    {
        match self.get_node(path) {
            Some(VfsNode::Directory { .. }) => true,
            _ => false,
        }
    }

    /// Whether `path` names a file.
    pub fn is_file(&self, path: &str) -> (r: bool)
        ensures
            r == is_file_spec(self.model(), path@),
    {
        match self.get_node(path) {
            Some(VfsNode::File { .. }) => true,
            _ => false,
        }
    }

    /// The content of the file at `path`; nothing if `path` is absent
    /// or names a directory.
    pub fn cat(&self, path: &str) -> (r: Option<String>)
        ensures
            match r {
                Some(content) => self.model().contains_key(path@) && (self.model()[path@] matches
                NodeModel::File { name: _, content: c } && c == content@),
                None => !is_file_spec(self.model(), path@),
            },
    {
        match self.get_node(path) {
            Some(VfsNode::File { content, .. }) => Some(content.clone()),
            _ => None,
        }
    }

    /// The absolute path of a child of `path` named `name`.
    pub fn child_path(&self, path: &str, name: &str) -> (r: String)
        ensures
            r@ == child_path_spec(path@, name@),
    {
        let r = concat3(path, "/", name);
        proof {
            reveal_strlit("/");
            assert(r@ =~= child_path_spec(path@, name@));
        }
        r
    }
}

/// The name and directory flag of each listing entry.
pub open spec fn entry_views(es: Seq<(String, bool)>) -> Seq<(Seq<char>, bool)> {
    es.map_values(|e: (String, bool)| (e.0@, e.1))
}

/// Inserts `e` into a name-sorted listing, before the first entry it
/// does not come strictly after.
pub open spec fn insert_sorted(e: (Seq<char>, bool), s: Seq<(Seq<char>, bool)>) -> Seq<
    (Seq<char>, bool),
>
    decreases s.len(),
{
    if s.len() == 0 {
        seq![e]
    } else if lex_le(e.0, s[0].0) {
        seq![e] + s
    } else {
        seq![s[0]] + insert_sorted(e, s.subrange(1, s.len() as int))
    }
}

/// The listing of `children` under `path`: each child paired with its
/// directory flag, insertion-sorted by name.
pub open spec fn ls_entries(
    m: Map<Seq<char>, NodeModel>,
    path: Seq<char>,
    children: Seq<Seq<char>>,
) -> Seq<(Seq<char>, bool)>
    decreases children.len(),
{
    if children.len() == 0 {
        Seq::empty()
    } else {
        insert_sorted(
            (children.last(), is_dir_spec(m, child_path_spec(path, children.last()))),
            ls_entries(m, path, children.drop_last()),
        )
    }
}

/// What `ls` returns: the sorted listing of a directory, nothing for
/// an absent path or a file.
pub open spec fn ls_spec(m: Map<Seq<char>, NodeModel>, path: Seq<char>) -> Option<
    Seq<(Seq<char>, bool)>,
> {
    if is_dir_spec(m, path) {
        Some(ls_entries(m, path, m[path]->Dir_children))
    } else {
        None
    }
}

proof fn lemma_insert_sorted_at(e: (Seq<char>, bool), s: Seq<(Seq<char>, bool)>, idx: int)
    requires
        0 <= idx <= s.len(),
        forall|k: int| 0 <= k < idx ==> !lex_le(e.0, (#[trigger] s[k]).0),
        idx == s.len() || lex_le(e.0, s[idx].0),
    ensures
        insert_sorted(e, s) == s.subrange(0, idx) + seq![e] + s.subrange(idx, s.len() as int),
    decreases s.len(),
{
    if idx == 0 {
        if s.len() == 0 {
            assert(insert_sorted(e, s) =~= s.subrange(0, 0) + seq![e] + s.subrange(
                0,
                s.len() as int,
            ));
        } else {
            assert(insert_sorted(e, s) =~= s.subrange(0, 0) + seq![e] + s.subrange(
                0,
                s.len() as int,
            ));
        }
    } else {
        let t = s.subrange(1, s.len() as int);
        assert forall|k: int| 0 <= k < idx - 1 implies !lex_le(e.0, (#[trigger] t[k]).0) by {
            assert(t[k] == s[k + 1]);
        }
        if idx < s.len() {
            assert(t[idx - 1] == s[idx]);
        }
        lemma_insert_sorted_at(e, t, idx - 1);
        assert(insert_sorted(e, s) =~= s.subrange(0, idx) + seq![e] + s.subrange(
            idx,
            s.len() as int,
        ));
    }
}

impl VirtualFs {
    /// Lists a directory: each child name with a flag saying whether
    /// it is itself a directory, sorted ascending by name. Nothing
    /// for an absent path or a file.
    pub fn ls(&self, path: &str) -> (r: Option<Vec<(String, bool)>>)
        ensures
            match r {
                Some(es) => ls_spec(self.model(), path@) == Some(entry_views(es@)),
                None => ls_spec(self.model(), path@) is None,
            },
    {
        let children: &Vec<String> = match self.get_node(path) {
            Some(VfsNode::Directory { children, .. }) => children,
            _ => {
                return None;
            },
        };
        let ghost m = self.model();
        let mut out: Vec<(String, bool)> = Vec::new();
        let mut i: usize = 0;
        proof {
            assert(seq_views(children@).subrange(0, 0) =~= Seq::<Seq<char>>::empty());
        }
        while i < children.len()
            invariant
                i <= children@.len(),
                m == self.model(),
                is_dir_spec(m, path@),
                m[path@]->Dir_children == seq_views(children@),
                entry_views(out@) == ls_entries(m, path@, seq_views(children@).subrange(0, i as int)),
            decreases children@.len() - i,
        {
            let name: &String = &children[i];
            let cp = self.child_path(path, name.as_str());
            let isd = self.is_dir(cp.as_str());
            let ghost e = (name@, is_dir_spec(m, child_path_spec(path@, name@)));
            let mut idx: usize = 0;
            while idx < out.len() && !crate::text::str_le(name.as_str(), out[idx].0.as_str())
                invariant
                    idx <= out@.len(),
                    forall|k: int|
                        0 <= k < idx ==> !lex_le(name@, (#[trigger] entry_views(out@)[k]).0),
                decreases out@.len() - idx,
            {
                proof {
                    assert(entry_views(out@)[idx as int].0 == out@[idx as int].0@);
                }
                idx = idx + 1;
            }
            proof {
                if idx < out@.len() {
                    assert(entry_views(out@)[idx as int].0 == out@[idx as int].0@);
                }
                lemma_insert_sorted_at(e, entry_views(out@), idx as int);
            }
            let ghost before = out@;
            out.insert(idx, (name.clone(), isd));
            proof {
                assert(entry_views(out@) =~= entry_views(before).subrange(0, idx as int) + seq![e]
                    + entry_views(before).subrange(idx as int, before.len() as int));
                let pref = seq_views(children@).subrange(0, i + 1);
                assert(pref.drop_last() =~= seq_views(children@).subrange(0, i as int));
                assert(pref.last() == name@);
                assert(entry_views(out@) =~= ls_entries(m, path@, pref));
            }
            i = i + 1;
        }
        proof {
            assert(seq_views(children@).subrange(0, children@.len() as int) =~= seq_views(
                children@,
            ));
        }
        Some(out)
    }
}

/// The glyph introducing a non-root tree line.
pub open spec fn connector(is_last: bool) -> Seq<char> {
    if is_last {
        "└── "@
    } else {
        "├── "@
    }
}

/// What a tree line accumulates in front of deeper siblings.
pub open spec fn indent(is_last: bool) -> Seq<char> {
    if is_last {
        "    "@
    } else {
        "│   "@
    }
}

/// How a node is captioned: directories carry a trailing `/`, except
/// for the line the walk was started on.
pub open spec fn node_title(n: NodeModel, is_root: bool) -> Seq<char> {
    match n {
        NodeModel::File { name, .. } => name,
        NodeModel::Dir { name, .. } => if is_root {
            name
        } else {
            name + "/"@
        },
    }
}

/// The rendered tree below `path`, depth first: the node's own line,
/// then each child's subtree in order. Nothing for an absent path.
/// `maxlen` bounds the length of every stored path and hence the
/// depth of the walk.
pub open spec fn tree_spec(
    m: Map<Seq<char>, NodeModel>,
    maxlen: nat,
    path: Seq<char>,
    prefix: Seq<char>,
    is_root: bool,
    is_last: bool,
) -> Option<Seq<Seq<char>>>
    decreases maxlen + 1 - path.len(), 1int, 0int,
{
    if !m.contains_key(path) {
        None
    } else {
        let head = if is_root {
            node_title(m[path], true)
        } else {
            prefix + connector(is_last) + node_title(m[path], false)
        };
        match m[path] {
            NodeModel::File { .. } => Some(seq![head]),
            NodeModel::Dir { children, .. } => {
                let cprefix = if is_root {
                    Seq::empty()
                } else {
                    prefix + indent(is_last)
                };
                Some(seq![head] + tree_children(m, maxlen, path, cprefix, children, 0))
            },
        }
    }
}

/// The concatenated subtrees of `children[i..]` under `path`.
pub open spec fn tree_children(
    m: Map<Seq<char>, NodeModel>,
    maxlen: nat,
    path: Seq<char>,
    cprefix: Seq<char>,
    children: Seq<Seq<char>>,
    i: int,
) -> Seq<Seq<char>>
    decreases maxlen + 1 - path.len(), 0int, children.len() - i,
{
    if i < 0 || i >= children.len() {
        Seq::empty()
    } else {
        let cpath = child_path_spec(path, children[i]);
        let sub = if cpath.len() <= maxlen {
            match tree_spec(m, maxlen, cpath, cprefix, false, i == children.len() - 1) {
                Some(lines) => lines,
                None => Seq::empty(),
            }
        } else {
            Seq::empty()
        };
        sub + tree_children(m, maxlen, path, cprefix, children, i + 1)
    }
}

impl VirtualFs {
    /// Renders the tree rooted at `path`; an empty `prefix` marks the
    /// line the walk starts on, which carries no connector. Nothing
    /// for an absent path.
    pub fn tree(&self, path: &str, prefix: &str, is_last: bool) -> (r: Option<Vec<String>>)
        requires
            self.wf(),
        ensures
            match r {
                Some(lines) => tree_spec(
                    self.model(),
                    self.max_path_len as nat,
                    path@,
                    prefix@,
                    prefix@.len() == 0,
                    is_last,
                ) == Some(seq_views(lines@)),
                None => tree_spec(
                    self.model(),
                    self.max_path_len as nat,
                    path@,
                    prefix@,
                    prefix@.len() == 0,
                    is_last,
                ) is None,
            },
    {
        let is_root = prefix.unicode_len() == 0;
        self.tree_walk(path, prefix, is_root, is_last)
    }

    /// The recursive walk behind [`VirtualFs::tree`].
    fn tree_walk(&self, path: &str, prefix: &str, is_root: bool, is_last: bool) -> (r: Option<
        Vec<String>,
    >)
        requires
            self.wf(),
        ensures
            match r {
                Some(lines) => tree_spec(
                    self.model(),
                    self.max_path_len as nat,
                    path@,
                    prefix@,
                    is_root,
                    is_last,
                ) == Some(seq_views(lines@)),
                None => tree_spec(
                    self.model(),
                    self.max_path_len as nat,
                    path@,
                    prefix@,
                    is_root,
                    is_last,
                ) is None,
            },
        decreases self.max_path_len + 1 - path@.len(), 1int, 0int,
    {
        let ghost m = self.model();
        let ghost maxlen = self.max_path_len as nat;
        let node = match self.get_node(path) {
            Some(n) => n,
            None => {
                return None;
            },
        };
        let head: String = match node {
            VfsNode::File { name, .. } => if is_root {
                name.clone()
            } else {
                concat3(prefix, if is_last { "└── " } else { "├── " }, name.as_str())
            },
            VfsNode::Directory { name, .. } => if is_root {
                name.clone()
            } else {
                let t = concat2(name.as_str(), "/");
                concat3(prefix, if is_last { "└── " } else { "├── " }, t.as_str())
            },
        };
        proof {
            assert(node.model() == m[path@]);
            if !is_root {
                assert(head@ =~= prefix@ + connector(is_last) + node_title(m[path@], false));
            }
        }
        let mut lines: Vec<String> = Vec::new();
        lines.push(head);
        let children: &Vec<String> = match node {
            VfsNode::File { .. } => {
                proof {
                    assert(seq_views(lines@) =~= seq![lines@[0]@]);
                }
                return Some(lines);
            },
            VfsNode::Directory { children, .. } => children,
        };
        let cprefix: String = if is_root {
            String::new()
        } else if is_last {
            concat2(prefix, "    ")
        } else {
            concat2(prefix, "│   ")
        };
        let ghost head_view = lines@[0]@;
        let n = children.len();
        let mut i: usize = 0;
        proof {
            assert(seq_views(lines@) =~= seq![head_view]);
        }
        while i < n
            invariant
                i <= n,
                n == children@.len(),
                self.wf(),
                m == self.model(),
                maxlen == self.max_path_len as nat,
                m.contains_key(path@),
                m[path@] matches NodeModel::Dir { name: _, children: cs } && cs == seq_views(
                    children@,
                ),
                cprefix@ == (if is_root {
                    Seq::<char>::empty()
                } else {
                    prefix@ + indent(is_last)
                }),
                seq_views(lines@) + tree_children(
                    m,
                    maxlen,
                    path@,
                    cprefix@,
                    seq_views(children@),
                    i as int,
                ) == seq![head_view] + tree_children(
                    m,
                    maxlen,
                    path@,
                    cprefix@,
                    seq_views(children@),
                    0,
                ),
            decreases n - i,
        {
            let ghost cviews = seq_views(children@);
            proof {
                assert(cviews[i as int] == children@[i as int]@);
            }
            let cp = self.child_path(path, children[i].as_str());
            if cp.unicode_len() <= self.max_path_len {
                match self.tree_walk(cp.as_str(), cprefix.as_str(), false, i == n - 1) {
                    Some(mut sub) => {
                        let ghost lines_before = lines@;
                        let ghost sub_view = seq_views(sub@);
                        lines.append(&mut sub);
                        proof {
                            assert(seq_views(lines@) =~= seq_views(lines_before) + sub_view);
                            assert(tree_children(m, maxlen, path@, cprefix@, cviews, i as int)
                                == sub_view + tree_children(
                                m,
                                maxlen,
                                path@,
                                cprefix@,
                                cviews,
                                i + 1,
                            ));
                        }
                    },
                    None => {
                        proof {
                            assert(tree_children(m, maxlen, path@, cprefix@, cviews, i as int)
                                =~= tree_children(m, maxlen, path@, cprefix@, cviews, i + 1));
                        }
                    },
                }
            } else {
                proof {
                    assert(tree_children(m, maxlen, path@, cprefix@, cviews, i as int)
                        =~= tree_children(m, maxlen, path@, cprefix@, cviews, i + 1));
                }
            }
            i = i + 1;
        }
        proof {
            assert(tree_children(m, maxlen, path@, cprefix@, seq_views(children@), n as int)
                =~= Seq::<Seq<char>>::empty());
            assert(seq_views(lines@) =~= seq_views(lines@) + tree_children(
                m,
                maxlen,
                path@,
                cprefix@,
                seq_views(children@),
                n as int,
            ));
            assert(seq_views(lines@) =~= seq![head_view] + tree_children(
                m,
                maxlen,
                path@,
                cprefix@,
                seq_views(children@),
                0,
            ));
        }
        Some(lines)
    }
}

/// No occurrence of `sep` anywhere in `x`.
pub open spec fn no_sep(x: Seq<char>, sep: char) -> bool {
    forall|m: int| 0 <= m < x.len() ==> x[m] != sep
}

proof fn lemma_scan_len_chars(s: Seq<char>, sep: char)
    ensures
        scan_len(s, sep) <= s.len(),
        forall|m: int| 0 <= m < scan_len(s, sep) ==> s[m] != sep,
    decreases s.len(),
{
    if s.len() == 0 || s[0] == sep {
    } else {
        let t = s.subrange(1, s.len() as int);
        lemma_scan_len_chars(t, sep);
        assert forall|m: int| 0 <= m < scan_len(s, sep) implies s[m] != sep by {
            if m > 0 {
                assert(t[m - 1] == s[m]);
            }
        }
    }
}

proof fn lemma_split_elements(s: Seq<char>, sep: char)
    ensures
        forall|j: int|
            0 <= j < split_char_spec(s, sep).len() ==> no_sep(
                #[trigger] split_char_spec(s, sep)[j],
                sep,
            ),
    decreases s.len(),
{
    lemma_scan_len_chars(s, sep);
    let k = scan_len(s, sep) as int;
    if k == s.len() {
        assert(no_sep(split_char_spec(s, sep)[0], sep));
    } else {
        lemma_split_elements(s.subrange(k + 1, s.len() as int), sep);
        assert(no_sep(s.subrange(0, k), sep));
        assert forall|j: int| 0 <= j < split_char_spec(s, sep).len() implies no_sep(
            #[trigger] split_char_spec(s, sep)[j],
            sep,
        ) by {
            if j > 0 {
                assert(split_char_spec(s, sep)[j] == split_char_spec(
                    s.subrange(k + 1, s.len() as int),
                    sep,
                )[j - 1]);
            }
        }
    }
}

proof fn lemma_join_first_unfold(parts: Seq<Seq<char>>, sep: char)
    requires
        parts.len() >= 2,
    ensures
        join_char_spec(parts, sep) == parts[0] + seq![sep] + join_char_spec(
            parts.subrange(1, parts.len() as int),
            sep,
        ),
    decreases parts.len(),
{
    let rest = parts.subrange(1, parts.len() as int);
    if parts.len() == 2 {
        let front = parts.drop_last();
        assert(front =~= seq![parts[0]]);
        assert(rest =~= seq![parts[1]]);
        assert(join_char_spec(front, sep) == parts[0]);
        assert(join_char_spec(rest, sep) == parts[1]);
        assert(join_char_spec(parts, sep) == join_char_spec(front, sep) + seq![sep]
            + parts.last());
        assert(join_char_spec(parts, sep) =~= parts[0] + seq![sep] + join_char_spec(rest, sep));
    } else {
        lemma_join_first_unfold(parts.drop_last(), sep);
        assert(parts.drop_last().subrange(1, parts.drop_last().len() as int) =~= rest.drop_last());
        assert(rest.last() == parts.last());
        assert(join_char_spec(rest, sep) == join_char_spec(rest.drop_last(), sep) + seq![sep]
            + rest.last());
        assert(join_char_spec(parts, sep) =~= parts[0] + seq![sep] + join_char_spec(rest, sep));
    }
}

proof fn lemma_split_join_inverse(parts: Seq<Seq<char>>, sep: char)
    requires
        parts.len() >= 1,
        forall|j: int| 0 <= j < parts.len() ==> no_sep(#[trigger] parts[j], sep),
    ensures
        split_char_spec(join_char_spec(parts, sep), sep) == parts,
    decreases parts.len(),
{
    let s = join_char_spec(parts, sep);
    if parts.len() == 1 {
        assert(s == parts[0]);
        lemma_scan_len_is(s, sep, s.len() as int);
        assert(split_char_spec(s, sep) =~= parts);
    } else {
        let rest = parts.subrange(1, parts.len() as int);
        lemma_join_first_unfold(parts, sep);
        let p0 = parts[0];
        let tail = join_char_spec(rest, sep);
        assert(s =~= p0 + seq![sep] + tail);
        assert forall|m: int| 0 <= m < p0.len() implies s[m] != sep by {
            assert(s[m] == p0[m]);
        }
        assert(s[p0.len() as int] == sep);
        lemma_scan_len_is(s, sep, p0.len() as int);
        assert(s.subrange(0, p0.len() as int) =~= p0);
        assert(s.subrange(p0.len() as int + 1, s.len() as int) =~= tail);
        assert forall|j: int| 0 <= j < rest.len() implies no_sep(#[trigger] rest[j], sep) by {
            assert(rest[j] == parts[j + 1]);
        }
        lemma_split_join_inverse(rest, sep);
        assert(split_char_spec(s, sep) =~= parts);
    }
}

/// A path piece that survives folding: non-empty in meaning, not a
/// dot step, and free of the separator.
pub open spec fn plain_piece(x: Seq<char>) -> bool {
    x != ""@ && x != "."@ && x != ".."@ && no_sep(x, '/')
}

proof fn lemma_norm_fold_plain(parts: Seq<Seq<char>>)
    requires
        forall|j: int| 0 <= j < parts.len() ==> no_sep(#[trigger] parts[j], '/'),
    ensures
        forall|j: int|
            0 <= j < norm_fold(parts).len() ==> plain_piece(#[trigger] norm_fold(parts)[j]),
    decreases parts.len(),
{
    if parts.len() > 0 {
        let front = parts.drop_last();
        assert forall|j: int| 0 <= j < front.len() implies no_sep(#[trigger] front[j], '/') by {
            assert(front[j] == parts[j]);
        }
        lemma_norm_fold_plain(front);
        let prev = norm_fold(front);
        let p = parts.last();
        if p == ""@ || p == "."@ {
        } else if p == ".."@ {
            if prev.len() > 1 || (prev.len() == 1 && prev[0] != "~"@) {
                assert forall|j: int| 0 <= j < prev.drop_last().len() implies plain_piece(
                    #[trigger] prev.drop_last()[j],
                ) by {
                    assert(prev.drop_last()[j] == prev[j]);
                }
            }
        } else {
            assert(no_sep(p, '/'));
        }
    }
}

proof fn lemma_norm_fold_rooted(parts: Seq<Seq<char>>)
    requires
        parts.len() >= 1,
        parts[0] == "~"@,
    ensures
        norm_fold(parts).len() >= 1,
        norm_fold(parts)[0] == "~"@,
    decreases parts.len(),
{
    reveal_strlit("~");
    reveal_strlit("");
    reveal_strlit(".");
    reveal_strlit("..");
    if parts.len() == 1 {
        let p = parts.last();
        assert(p == "~"@);
        if p == "."@ {
            assert(p[0] == '.');
            assert(false);
        }
        assert(p != ""@ && p != "."@ && p != ".."@);
        assert(norm_fold(parts) =~= norm_fold(parts.drop_last()).push(p));
        assert(norm_fold(parts.drop_last()) =~= Seq::<Seq<char>>::empty());
    } else {
        let front = parts.drop_last();
        assert(front[0] == parts[0]);
        lemma_norm_fold_rooted(front);
        let prev = norm_fold(front);
        let p = parts.last();
        if p == ""@ || p == "."@ {
        } else if p == ".."@ {
            if prev.len() > 1 {
                assert(prev.drop_last()[0] == prev[0]);
            }
        } else {
        }
    }
}

proof fn lemma_norm_fold_identity(parts: Seq<Seq<char>>)
    requires
        forall|j: int| 0 <= j < parts.len() ==> plain_piece(#[trigger] parts[j]),
    ensures
        norm_fold(parts) == parts,
    decreases parts.len(),
{
    if parts.len() > 0 {
        let front = parts.drop_last();
        assert forall|j: int| 0 <= j < front.len() implies plain_piece(#[trigger] front[j]) by {
            assert(front[j] == parts[j]);
        }
        lemma_norm_fold_identity(front);
        assert(plain_piece(parts.last()));
        assert(norm_fold(parts) =~= parts);
    }
}

proof fn lemma_first_piece_tilde(s: Seq<char>)
    requires
        s == "~"@ || (s.len() >= 2 && s[0] == '~' && s[1] == '/'),
    ensures
        split_char_spec(s, '/').len() >= 1,
        split_char_spec(s, '/')[0] == "~"@,
{
    reveal_strlit("~");
    if s == "~"@ {
        lemma_scan_len_is(s, '/', 1);
        assert(split_char_spec(s, '/') =~= seq![s]);
    } else {
        lemma_scan_len_is(s, '/', 1);
        assert(s.subrange(0, 1) =~= "~"@);
    }
}

/// Normalizing is idempotent: the canonical form of any path comes
/// back from a second normalization unchanged.
proof fn lemma_normalize_idempotent(s: Seq<char>)
    ensures
        normalize_spec(normalize_spec(s)) == normalize_spec(s),
{
    let parts = split_char_spec(s, '/');
    lemma_split_elements(s, '/');
    lemma_norm_fold_plain(parts);
    let nf = norm_fold(parts);
    let q = normalize_spec(s);
    if nf.len() == 0 {
        reveal_strlit("~");
        reveal_strlit("");
        reveal_strlit(".");
        reveal_strlit("..");
        assert(q == "~"@);
        lemma_scan_len_is(q, '/', 1);
        assert(split_char_spec(q, '/') =~= seq![q]);
        if q == "."@ {
            assert(q[0] == '.');
            assert(false);
        }
        assert(seq![q].drop_last() =~= Seq::<Seq<char>>::empty());
        assert(seq![q].last() == q);
        assert(norm_fold(Seq::<Seq<char>>::empty()) =~= Seq::<Seq<char>>::empty());
        assert(q != ""@ && q != "."@ && q != ".."@);
        assert(norm_fold(seq![q]) =~= Seq::<Seq<char>>::empty().push(q));
        assert(normalize_spec(q) == q);
    } else {
        lemma_split_join_inverse(nf, '/');
        assert(split_char_spec(q, '/') == nf);
        lemma_norm_fold_identity(nf);
        assert(normalize_spec(q) == q);
    }
}

/// A normalized path whose first piece is the root guard `~` opens
/// with `~`.
proof fn lemma_rooted_normalize(s: Seq<char>)
    requires
        split_char_spec(s, '/').len() >= 1,
        split_char_spec(s, '/')[0] == "~"@,
    ensures
        rooted(normalize_spec(s)),
{
    reveal_strlit("~");
    let parts = split_char_spec(s, '/');
    lemma_split_elements(s, '/');
    lemma_norm_fold_rooted(parts);
    let nf = norm_fold(parts);
    let q = normalize_spec(s);
    if nf.len() == 1 {
        assert(q == nf[0]);
    } else {
        lemma_join_first_unfold(nf, '/');
        assert(q =~= nf[0] + seq!['/'] + join_char_spec(nf.subrange(1, nf.len() as int), '/'));
        assert(q[0] == '~');
    }
}

/// Path resolution is idempotent whenever it yields a `~`-anchored
/// path — which it does for every ordinary input, by
/// [`lemma_resolve_rooted`]. The exclusion is an input like
/// `~x/../y`, whose leading `~x` piece is no root guard: it is
/// popped, the resolution strays to `y`, and resolving that again
/// lands under the working directory instead.
pub proof fn lemma_resolve_idempotent(cwd: Seq<char>, p: Seq<char>)
    requires
        rooted(resolve_spec(cwd, p)),
    ensures
        resolve_spec(cwd, resolve_spec(cwd, p)) == resolve_spec(cwd, p),
{
    if rooted(p) {
        lemma_normalize_idempotent(p);
    } else {
        lemma_normalize_idempotent(cwd + seq!['/'] + p);
    }
}

/// Resolution yields a `~`-anchored path whenever the working
/// directory is a canonical `~` path and a `~`-prefixed input opens
/// with the root piece itself rather than a longer first piece.
pub proof fn lemma_resolve_rooted(cwd: Seq<char>, p: Seq<char>)
    requires
        cwd == "~"@ || (cwd.len() >= 2 && cwd[0] == '~' && cwd[1] == '/'),
        rooted(p) ==> p == "~"@ || (p.len() >= 2 && p[1] == '/'),
    ensures
        rooted(resolve_spec(cwd, p)),
{
    reveal_strlit("~");
    if rooted(p) {
        assert(p == "~"@ || (p.len() >= 2 && p[0] == '~' && p[1] == '/'));
        lemma_first_piece_tilde(p);
        lemma_rooted_normalize(p);
    } else {
        let comb = cwd + seq!['/'] + p;
        if cwd == "~"@ {
            assert(comb[0] == '~' && comb[1] == '/');
        } else {
            assert(comb[0] == cwd[0] && comb[1] == cwd[1]);
        }
        lemma_first_piece_tilde(comb);
        lemma_rooted_normalize(comb);
    }
}

/// Listing entries in strictly ascending name order.
pub open spec fn strict_sorted(es: Seq<(Seq<char>, bool)>) -> bool {
    forall|i: int, j: int|
        0 <= i < j < es.len() ==> crate::text::lex_lt((#[trigger] es[i]).0, (#[trigger] es[j]).0)
}

/// Listing entries in ascending name order, equals permitted.
pub open spec fn sorted_le(es: Seq<(Seq<char>, bool)>) -> bool {
    forall|i: int, j: int|
        0 <= i < j < es.len() ==> lex_le((#[trigger] es[i]).0, (#[trigger] es[j]).0)
}

proof fn lemma_lex_lt_trans(a: Seq<char>, b: Seq<char>, c: Seq<char>)
    requires
        crate::text::lex_lt(a, b),
        crate::text::lex_lt(b, c),
    ensures
        crate::text::lex_lt(a, c),
{
    crate::text::lemma_lex_le_trans(a, b, c);
    if a == c {
        crate::text::lemma_lex_le_antisym(a, b);
    }
}

proof fn lemma_insert_elems(e: (Seq<char>, bool), s: Seq<(Seq<char>, bool)>)
    ensures
        insert_sorted(e, s).len() == s.len() + 1,
        forall|k: int|
            0 <= k < insert_sorted(e, s).len() ==> #[trigger] insert_sorted(e, s)[k] == e
                || s.contains(insert_sorted(e, s)[k]),
    decreases s.len(),
{
    if s.len() == 0 {
    } else if lex_le(e.0, s[0].0) {
        assert forall|k: int| 0 <= k < insert_sorted(e, s).len() implies #[trigger] insert_sorted(
            e,
            s,
        )[k] == e || s.contains(insert_sorted(e, s)[k]) by {
            if k > 0 {
                assert(insert_sorted(e, s)[k] == s[k - 1]);
            }
        }
    } else {
        let tail = s.subrange(1, s.len() as int);
        lemma_insert_elems(e, tail);
        assert forall|k: int| 0 <= k < insert_sorted(e, s).len() implies #[trigger] insert_sorted(
            e,
            s,
        )[k] == e || s.contains(insert_sorted(e, s)[k]) by {
            if k == 0 {
                assert(insert_sorted(e, s)[0] == s[0]);
            } else {
                let x = insert_sorted(e, s)[k];
                assert(x == insert_sorted(e, tail)[k - 1]);
                if x != e {
                    assert(tail.contains(x));
                    let m = choose|m: int| 0 <= m < tail.len() && tail[m] == x;
                    assert(s[m + 1] == x);
                }
            }
        }
    }
}

proof fn lemma_insert_strict(e: (Seq<char>, bool), s: Seq<(Seq<char>, bool)>)
    requires
        strict_sorted(s),
        forall|k: int| 0 <= k < s.len() ==> (#[trigger] s[k]).0 != e.0,
    ensures
        strict_sorted(insert_sorted(e, s)),
    decreases s.len(),
{
    if s.len() == 0 {
    } else if lex_le(e.0, s[0].0) {
        assert(crate::text::lex_lt(e.0, s[0].0));
        let res = insert_sorted(e, s);
        assert forall|i: int, j: int| 0 <= i < j < res.len() implies crate::text::lex_lt(
            (#[trigger] res[i]).0,
            (#[trigger] res[j]).0,
        ) by {
            assert(res[j] == s[j - 1]);
            if i == 0 {
                if j > 1 {
                    lemma_lex_lt_trans(e.0, s[0].0, s[j - 1].0);
                }
            } else {
                assert(res[i] == s[i - 1]);
            }
        }
    } else {
        let tail = s.subrange(1, s.len() as int);
        crate::text::lemma_lex_le_total(e.0, s[0].0);
        assert(crate::text::lex_lt(s[0].0, e.0));
        assert forall|k: int| 0 <= k < tail.len() implies (#[trigger] tail[k]).0 != e.0 by {
            assert(tail[k] == s[k + 1]);
        }
        lemma_insert_strict(e, tail);
        lemma_insert_elems(e, tail);
        let res = insert_sorted(e, s);
        let sub = insert_sorted(e, tail);
        assert forall|i: int, j: int| 0 <= i < j < res.len() implies crate::text::lex_lt(
            (#[trigger] res[i]).0,
            (#[trigger] res[j]).0,
        ) by {
            if i == 0 {
                assert(res[0] == s[0]);
                let x = res[j];
                assert(x == sub[j - 1]);
                if x == e {
                    assert(crate::text::lex_lt(s[0].0, e.0));
                } else {
                    assert(tail.contains(x));
                    let m = choose|m: int| 0 <= m < tail.len() && tail[m] == x;
                    assert(s[m + 1] == x);
                    assert(crate::text::lex_lt(s[0].0, s[m + 1].0));
                }
            } else {
                assert(res[i] == sub[i - 1]);
                assert(res[j] == sub[j - 1]);
            }
        }
    }
}

proof fn lemma_ls_entries_strict(
    m: Map<Seq<char>, NodeModel>,
    path: Seq<char>,
    children: Seq<Seq<char>>,
)
    requires
        forall|i: int, j: int|
            0 <= i < j < children.len() ==> #[trigger] children[i] != #[trigger] children[j],
    ensures
        strict_sorted(ls_entries(m, path, children)),
        forall|k: int|
            0 <= k < ls_entries(m, path, children).len() ==> children.contains(
                (#[trigger] ls_entries(m, path, children)[k]).0,
            ),
    decreases children.len(),
{
    if children.len() > 0 {
        let front = children.drop_last();
        assert forall|i: int, j: int| 0 <= i < j < front.len() implies #[trigger] front[i]
            != #[trigger] front[j] by {
            assert(front[i] == children[i] && front[j] == children[j]);
        }
        lemma_ls_entries_strict(m, path, front);
        let prev = ls_entries(m, path, front);
        let e = (children.last(), is_dir_spec(m, child_path_spec(path, children.last())));
        assert forall|k: int| 0 <= k < prev.len() implies (#[trigger] prev[k]).0 != e.0 by {
            assert(front.contains(prev[k].0));
            let n = choose|n: int| 0 <= n < front.len() && front[n] == prev[k].0;
            assert(children[n] == prev[k].0);
            assert(children[n] != children.last());
        }
        lemma_insert_strict(e, prev);
        lemma_insert_elems(e, prev);
        let res = ls_entries(m, path, children);
        assert forall|k: int| 0 <= k < res.len() implies children.contains(
            (#[trigger] res[k]).0,
        ) by {
            if res[k] == e {
                assert(children[children.len() - 1] == e.0);
            } else {
                assert(prev.contains(res[k]));
                let n = choose|n: int| 0 <= n < prev.len() && prev[n] == res[k];
                assert(front.contains(prev[n].0));
                let w = choose|w: int| 0 <= w < front.len() && front[w] == prev[n].0;
                assert(children[w] == res[k].0);
            }
        }
    }
}

proof fn lemma_insert_sorted_le(e: (Seq<char>, bool), s: Seq<(Seq<char>, bool)>)
    requires
        sorted_le(s),
    ensures
        sorted_le(insert_sorted(e, s)),
    decreases s.len(),
{
    if s.len() == 0 {
    } else if lex_le(e.0, s[0].0) {
        let res = insert_sorted(e, s);
        assert forall|i: int, j: int| 0 <= i < j < res.len() implies lex_le(
            (#[trigger] res[i]).0,
            (#[trigger] res[j]).0,
        ) by {
            assert(res[j] == s[j - 1]);
            if i == 0 {
                if j > 1 {
                    crate::text::lemma_lex_le_trans(e.0, s[0].0, s[j - 1].0);
                }
            } else {
                assert(res[i] == s[i - 1]);
            }
        }
    } else {
        let tail = s.subrange(1, s.len() as int);
        crate::text::lemma_lex_le_total(e.0, s[0].0);
        lemma_insert_sorted_le(e, tail);
        lemma_insert_elems(e, tail);
        let res = insert_sorted(e, s);
        let sub = insert_sorted(e, tail);
        assert forall|i: int, j: int| 0 <= i < j < res.len() implies lex_le(
            (#[trigger] res[i]).0,
            (#[trigger] res[j]).0,
        ) by {
            if i == 0 {
                assert(res[0] == s[0]);
                let x = res[j];
                assert(x == sub[j - 1]);
                if x != e {
                    assert(tail.contains(x));
                    let m = choose|m: int| 0 <= m < tail.len() && tail[m] == x;
                    assert(s[m + 1] == x);
                }
            } else {
                assert(res[i] == sub[i - 1]);
                assert(res[j] == sub[j - 1]);
            }
        }
    }
}

proof fn lemma_ls_entries_sorted_le(
    m: Map<Seq<char>, NodeModel>,
    path: Seq<char>,
    children: Seq<Seq<char>>,
)
    ensures
        sorted_le(ls_entries(m, path, children)),
    decreases children.len(),
{
    if children.len() > 0 {
        lemma_ls_entries_sorted_le(m, path, children.drop_last());
        lemma_insert_sorted_le(
            (children.last(), is_dir_spec(m, child_path_spec(path, children.last()))),
            ls_entries(m, path, children.drop_last()),
        );
    }
}

/// A directory listing is ascending by name, whatever the children
/// are; with duplicate child names, equals may stand side by side.
pub proof fn lemma_ls_sorted_le(m: Map<Seq<char>, NodeModel>, path: Seq<char>)
    requires
        is_dir_spec(m, path),
    ensures
        ls_spec(m, path) matches Some(es) && sorted_le(es),
{
    lemma_ls_entries_sorted_le(m, path, m[path]->Dir_children);
}

/// A directory listing is strictly ascending by name, provided the
/// directory's child names are distinct.
pub proof fn lemma_ls_sorted(m: Map<Seq<char>, NodeModel>, path: Seq<char>)
    requires
        is_dir_spec(m, path),
        forall|i: int, j: int|
            0 <= i < j < m[path]->Dir_children.len() ==> #[trigger] m[path]->Dir_children[i]
                != #[trigger] m[path]->Dir_children[j],
    ensures
        ls_spec(m, path) matches Some(es) && strict_sorted(es),
{
    lemma_ls_entries_strict(m, path, m[path]->Dir_children);
}

/// The line a tree walk opens with: for the node the walk starts on
/// it is the bare node title, connector-free; for a directory the
/// title keeps no trailing slash on that line.
pub proof fn lemma_tree_root_line(
    m: Map<Seq<char>, NodeModel>,
    maxlen: nat,
    path: Seq<char>,
    prefix: Seq<char>,
    is_last: bool,
)
    requires
        m.contains_key(path),
    ensures
        tree_spec(m, maxlen, path, prefix, true, is_last) matches Some(ls) && ls.len() >= 1 && ls[0]
            == node_title(m[path], true),
{
    match m[path] {
        NodeModel::File { .. } => {
        },
        NodeModel::Dir { .. } => {
        },
    }
}

/// Every directory rendered below the root of a tree walk ends its
/// line with a slash.
pub proof fn lemma_tree_dir_slash(
    m: Map<Seq<char>, NodeModel>,
    maxlen: nat,
    path: Seq<char>,
    prefix: Seq<char>,
    is_last: bool,
)
    requires
        m.contains_key(path),
        m[path] is Dir,
    ensures
        tree_spec(m, maxlen, path, prefix, false, is_last) matches Some(ls) && ls.len() >= 1
            && ls[0].len() >= 1 && ls[0][ls[0].len() - 1] == '/',
{
    reveal_strlit("/");
    let title = node_title(m[path], false);
    assert(title.len() >= 1 && title[title.len() - 1] == '/');
    let head = prefix + connector(is_last) + title;
    assert(head.len() >= 1 && head[head.len() - 1] == '/');
}

} // verus!
