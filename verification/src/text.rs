//! Character-level string utilities: whitespace trimming, token and
//! separator splitting, joining, lowercasing, prefix and substring
//! tests, lexicographic order, and decimal rendering.
//!
//! Every executable function is specified against a spec function over
//! `Seq<char>`, so callers can reason about string contents exactly.

use vstd::prelude::*;
use vstd::string::StrSliceExecFns;
use vstd::string::StringExecFns;

verus! {

/// The whitespace characters this shell recognizes.
pub open spec fn is_ws(c: char) -> bool {
    c == ' ' || c == '\t' || c == '\n' || c == '\r'
}

/// Executable mirror of [`is_ws`].
pub fn ws_char(c: char) -> (r: bool)
    ensures
        r == is_ws(c),
{
    c == ' ' || c == '\t' || c == '\n' || c == '\r'
}

/// Relies on `String::push`: appends one character at the end.
#[verifier::external_body]
pub fn push_char(s: &mut String, c: char)
    ensures
        final(s)@ == old(s)@ + seq![c],
{
    s.push(c);
}

/// ASCII lowercasing of one character; anything but `A`..`Z` is kept.
pub open spec fn lower_char(c: char) -> char {
    if 'A' <= c && c <= 'Z' {
        ((c as u8) + 32) as char
    } else {
        c
    }
}

/// Executable mirror of [`lower_char`].
pub fn lower_char_exec(c: char) -> (r: char)
    ensures
        r == lower_char(c),
{
    if 'A' <= c && c <= 'Z' {
        ((c as u8) + 32) as char
    } else {
        c
    }
}

/// ASCII lowercasing of a whole string.
pub open spec fn lower(s: Seq<char>) -> Seq<char> {
    s.map_values(|c: char| lower_char(c))
}

/// Returns `s` lowercased, character by character.
pub fn lower_str(s: &str) -> (r: String)
    ensures
        r@ == lower(s@),
{
    let n: usize = s.unicode_len();
    let mut r: String = String::new();
    let mut i: usize = 0;
    while i < n
        invariant
            i <= n,
            n == s@.len(),
            r@ == lower(s@.subrange(0, i as int)),
        decreases n - i,
    {
        let c = s.get_char(i);
        push_char(&mut r, lower_char_exec(c));
        proof {
            assert(s@.subrange(0, i + 1) =~= s@.subrange(0, i as int).push(s@[i as int]));
            assert(lower(s@.subrange(0, i + 1)) =~= lower(s@.subrange(0, i as int)).push(
                lower_char(s@[i as int]),
            ));
        }
        i = i + 1;
    }
    proof {
        assert(s@.subrange(0, n as int) =~= s@);
    }
    r
}

/// Equality test on string contents.
pub fn str_eq(a: &str, b: &str) -> (r: bool)
    ensures
        r == (a@ == b@),
{
    let na: usize = a.unicode_len();
    let nb: usize = b.unicode_len();
    if na != nb {
        return false;
    }
    let mut i: usize = 0;
    while i < na
        invariant
            i <= na,
            na == a@.len(),
            na == b@.len(),
            forall|k: int| 0 <= k < i ==> a@[k] == b@[k],
        decreases na - i,
    {
        if a.get_char(i) != b.get_char(i) {
            return false;
        }
        i = i + 1;
    }
    proof {
        assert(a@ =~= b@);
    }
    true
}

/// Does `s` start with the prefix `p`?
pub open spec fn is_prefix(p: Seq<char>, s: Seq<char>) -> bool {
    p.len() <= s.len() && s.subrange(0, p.len() as int) == p
}

/// Executable prefix test.
pub fn starts_with(s: &str, p: &str) -> (r: bool)
    ensures
        r == is_prefix(p@, s@),
{
    let np: usize = p.unicode_len();
    let ns: usize = s.unicode_len();
    if np > ns {
        return false;
    }
    let mut i: usize = 0;
    while i < np
        invariant
            i <= np,
            np == p@.len(),
            ns == s@.len(),
            np <= ns,
            forall|k: int| 0 <= k < i ==> s@[k] == p@[k],
        decreases np - i,
    {
        if s.get_char(i) != p.get_char(i) {
            proof {
                assert(s@.subrange(0, np as int)[i as int] == s@[i as int]);
            }
            return false;
        }
        i = i + 1;
    }
    proof {
        assert(s@.subrange(0, np as int) =~= p@);
    }
    true
}

/// Does `s` contain `p` as a contiguous substring?
pub open spec fn has_substring(s: Seq<char>, p: Seq<char>) -> bool {
    exists|i: int| 0 <= i <= s.len() - p.len() && #[trigger] s.subrange(i, i + p.len()) == p
}

/// Executable substring search.
pub fn contains_sub(s: &str, p: &str) -> (r: bool)
    ensures
        r == has_substring(s@, p@),
{
    let np: usize = p.unicode_len();
    let ns: usize = s.unicode_len();
    if np > ns {
        return false;
    }
    let mut i: usize = 0;
    while i <= ns - np
        invariant
            np <= ns,
            i <= ns - np + 1,
            np == p@.len(),
            ns == s@.len(),
            forall|k: int| 0 <= k < i ==> #[trigger] s@.subrange(k, k + p@.len()) != p@,
        decreases ns - np + 1 - i,
    {
        let mut j: usize = 0;
        let mut ok: bool = true;
        while j < np
            invariant
                i + np <= ns,
                j <= np,
                np == p@.len(),
                ns == s@.len(),
                ok <==> (forall|k: int| 0 <= k < j ==> s@[i + k] == p@[k]),
                ok || j == np,
            decreases np - j,
        {
            if s.get_char(i + j) != p.get_char(j) {
                ok = false;
                j = np;
            } else {
                proof {
                    assert(s@[i + j] == p@[j as int]);
                }
                j = j + 1;
            }
        }
        if ok {
            proof {
                assert(s@.subrange(i as int, i + p@.len()) =~= p@);
            }
            return true;
        }
        proof {
            assert(s@.subrange(i as int, i + p@.len()) != p@);
        }
        i = i + 1;
    }
    proof {
        assert forall|k: int| 0 <= k <= s@.len() - p@.len() implies #[trigger] s@.subrange(
            k,
            k + p@.len(),
        ) != p@ by {
            assert(k < i);
        }
    }
    false
}

/// Length of the longest prefix of `s` made of whitespace only.
pub open spec fn ws_prefix_len(s: Seq<char>) -> nat
    decreases s.len(),
{
    if s.len() == 0 || !is_ws(s[0]) {
        0
    } else {
        1 + ws_prefix_len(s.subrange(1, s.len() as int))
    }
}

/// Length of the longest suffix of `s` made of whitespace only.
pub open spec fn ws_suffix_len(s: Seq<char>) -> nat
    decreases s.len(),
{
    if s.len() == 0 || !is_ws(s[s.len() - 1]) {
        0
    } else {
        1 + ws_suffix_len(s.subrange(0, s.len() - 1))
    }
}

/// `s` without leading and trailing whitespace.
pub open spec fn trim_spec(s: Seq<char>) -> Seq<char> {
    let front = s.subrange(ws_prefix_len(s) as int, s.len() as int);
    front.subrange(0, front.len() - ws_suffix_len(front))
}

proof fn lemma_ws_prefix_len_is(s: Seq<char>, i: int)
    requires
        0 <= i <= s.len(),
        forall|k: int| 0 <= k < i ==> is_ws(s[k]),
        i == s.len() || !is_ws(s[i]),
    ensures
        ws_prefix_len(s) == i,
    decreases s.len(),
{
    if i == 0 {
    } else {
        let t = s.subrange(1, s.len() as int);
        assert(is_ws(s[0]));
        assert forall|k: int| 0 <= k < i - 1 implies is_ws(t[k]) by {
            assert(t[k] == s[k + 1]);
        }
        lemma_ws_prefix_len_is(t, i - 1);
    }
}

proof fn lemma_ws_suffix_len_is(s: Seq<char>, j: int)
    requires
        0 <= j <= s.len(),
        forall|k: int| j <= k < s.len() ==> is_ws(s[k]),
        j == 0 || !is_ws(s[j - 1]),
    ensures
        ws_suffix_len(s) == s.len() - j,
    decreases s.len(),
{
    if j == s.len() {
    } else {
        let t = s.subrange(0, s.len() - 1);
        assert(is_ws(s[s.len() - 1]));
        assert forall|k: int| j <= k < t.len() implies is_ws(t[k]) by {
            assert(t[k] == s[k]);
        }
        lemma_ws_suffix_len_is(t, j);
    }
}

/// `s` without leading whitespace.
pub open spec fn trim_start_spec(s: Seq<char>) -> Seq<char> {
    s.subrange(ws_prefix_len(s) as int, s.len() as int)
}

/// `s` with leading whitespace removed, as an owned string.
pub fn trim_start(s: &str) -> (r: String)
    ensures
        r@ == trim_start_spec(s@),
{
    let n: usize = s.unicode_len();
    let mut i: usize = 0;
    while i < n && ws_char(s.get_char(i))
        invariant
            i <= n,
            n == s@.len(),
            forall|k: int| 0 <= k < i ==> is_ws(s@[k]),
        decreases n - i,
    {
        i = i + 1;
    }
    proof {
        lemma_ws_prefix_len_is(s@, i as int);
    }
    s.substring_char(i, n).to_owned()
}

/// `s` with surrounding whitespace removed, as an owned string.
pub fn trim(s: &str) -> (r: String)
    ensures
        r@ == trim_spec(s@),
{
    let n: usize = s.unicode_len();
    let mut i: usize = 0;
    while i < n && ws_char(s.get_char(i))
        invariant
            i <= n,
            n == s@.len(),
            forall|k: int| 0 <= k < i ==> is_ws(s@[k]),
        decreases n - i,
    {
        i = i + 1;
    }
    proof {
        lemma_ws_prefix_len_is(s@, i as int);
    }
    let mut j: usize = n;
    while j > i && ws_char(s.get_char(j - 1))
        invariant
            i <= j <= n,
            n == s@.len(),
            forall|k: int| j <= k < n ==> is_ws(s@[k]),
        decreases j,
    {
        j = j - 1;
    }
    let r = s.substring_char(i, j);
    proof {
        let front = s@.subrange(i as int, n as int);
        if j == i {
            assert forall|k: int| 0 <= k < front.len() implies is_ws(front[k]) by {
                assert(front[k] == s@[i + k]);
            }
            lemma_ws_suffix_len_is(front, 0);
            assert(r@ =~= trim_spec(s@));
        } else {
            assert(!is_ws(s@[j - 1]));
            assert forall|k: int| j - i <= k < front.len() implies is_ws(front[k]) by {
                assert(front[k] == s@[i + k]);
            }
            assert(front[j - i - 1] == s@[j - 1]);
            lemma_ws_suffix_len_is(front, j - i);
            assert(r@ =~= trim_spec(s@));
        }
    }
    r.to_owned()
}

/// The views of a sequence of owned strings.
pub open spec fn seq_views(v: Seq<String>) -> Seq<Seq<char>> {
    v.map_values(|x: String| x@)
}

/// Length of the longest prefix of `s` free of whitespace.
pub open spec fn non_ws_prefix_len(s: Seq<char>) -> nat
    decreases s.len(),
{
    if s.len() == 0 || is_ws(s[0]) {
        0
    } else {
        1 + non_ws_prefix_len(s.subrange(1, s.len() as int))
    }
}

proof fn lemma_non_ws_prefix_len_le(s: Seq<char>)
    ensures
        non_ws_prefix_len(s) <= s.len(),
    decreases s.len(),
{
    if s.len() == 0 || is_ws(s[0]) {
    } else {
        lemma_non_ws_prefix_len_le(s.subrange(1, s.len() as int));
    }
}

proof fn lemma_non_ws_prefix_len_is(s: Seq<char>, i: int)
    requires
        0 <= i <= s.len(),
        forall|k: int| 0 <= k < i ==> !is_ws(s[k]),
        i == s.len() || is_ws(s[i]),
    ensures
        non_ws_prefix_len(s) == i,
    decreases s.len(),
{
    if i == 0 {
    } else {
        let t = s.subrange(1, s.len() as int);
        assert(!is_ws(s[0]));
        assert forall|k: int| 0 <= k < i - 1 implies !is_ws(t[k]) by {
            assert(t[k] == s[k + 1]);
        }
        lemma_non_ws_prefix_len_is(t, i - 1);
    }
}

/// The whitespace-separated tokens of `s`, in order, without empties.
pub open spec fn tokens_spec(s: Seq<char>) -> Seq<Seq<char>>
    decreases s.len(),
    via tokens_spec_dec
{
    if s.len() == 0 {
        Seq::empty()
    } else if is_ws(s[0]) {
        tokens_spec(s.subrange(1, s.len() as int))
    } else {
        seq![s.subrange(0, non_ws_prefix_len(s) as int)] + tokens_spec(
            s.subrange(non_ws_prefix_len(s) as int, s.len() as int),
        )
    }
}

#[via_fn]
proof fn tokens_spec_dec(s: Seq<char>) {
    if s.len() != 0 && !is_ws(s[0]) {
        lemma_non_ws_prefix_len_le(s);
    }
}

proof fn lemma_tokens_skip_ws(s: Seq<char>, i: int)
    requires
        0 <= i < s.len(),
        is_ws(s[i]),
    ensures
        tokens_spec(s.subrange(i, s.len() as int)) == tokens_spec(
            s.subrange(i + 1, s.len() as int),
        ),
{
    let rest = s.subrange(i, s.len() as int);
    assert(is_ws(rest[0]));
    assert(rest.subrange(1, rest.len() as int) =~= s.subrange(i + 1, s.len() as int));
}

proof fn lemma_tokens_take_word(s: Seq<char>, i: int, j: int)
    requires
        0 <= i < j <= s.len(),
        forall|k: int| i <= k < j ==> !is_ws(s[k]),
        j == s.len() || is_ws(s[j]),
    ensures
        tokens_spec(s.subrange(i, s.len() as int)) == seq![s.subrange(i, j)] + tokens_spec(
            s.subrange(j, s.len() as int),
        ),
{
    let rest = s.subrange(i, s.len() as int);
    assert(!is_ws(rest[0]));
    assert forall|k: int| 0 <= k < j - i implies !is_ws(rest[k]) by {
        assert(rest[k] == s[i + k]);
    }
    if j < s.len() {
        assert(rest[j - i] == s[j]);
    }
    lemma_non_ws_prefix_len_is(rest, j - i);
    assert(rest.subrange(0, j - i) =~= s.subrange(i, j));
    assert(rest.subrange(j - i, rest.len() as int) =~= s.subrange(j, s.len() as int));
}

/// Splits `s` into its whitespace-separated tokens.
pub fn tokens(s: &str) -> (r: Vec<String>)
    ensures
        seq_views(r@) == tokens_spec(s@),
{
    let n: usize = s.unicode_len();
    let mut out: Vec<String> = Vec::new();
    let mut i: usize = 0;
    proof {
        assert(s@.subrange(0, n as int) =~= s@);
    }
    while i < n
        invariant
            i <= n,
            n == s@.len(),
            seq_views(out@) + tokens_spec(s@.subrange(i as int, n as int)) == tokens_spec(s@),
        decreases n - i,
    {
        if ws_char(s.get_char(i)) {
            proof {
                lemma_tokens_skip_ws(s@, i as int);
            }
            i = i + 1;
        } else {
            let mut j: usize = i + 1;
            while j < n && !ws_char(s.get_char(j))
                invariant
                    i < j <= n,
                    n == s@.len(),
                    forall|k: int| i <= k < j ==> !is_ws(s@[k]),
                decreases n - j,
            {
                j = j + 1;
            }
            proof {
                lemma_tokens_take_word(s@, i as int, j as int);
            }
            let word = s.substring_char(i, j).to_owned();
            out.push(word);
            proof {
                assert(seq_views(out@) =~= seq_views(out@.subrange(0, out@.len() - 1)).push(
                    s@.subrange(i as int, j as int),
                ));
                assert(out@.subrange(0, out@.len() - 1) =~= out@.drop_last());
                assert(seq_views(out@) + tokens_spec(s@.subrange(j as int, n as int))
                    =~= tokens_spec(s@));
            }
            i = j;
        }
    }
    proof {
        assert(tokens_spec(s@.subrange(n as int, n as int)) =~= Seq::<Seq<char>>::empty());
        assert(seq_views(out@) =~= seq_views(out@) + tokens_spec(s@.subrange(n as int, n as int)));
    }
    out
}

/// Length of the longest prefix of `s` free of the separator `sep`.
pub open spec fn scan_len(s: Seq<char>, sep: char) -> nat
    decreases s.len(),
{
    if s.len() == 0 || s[0] == sep {
        0
    } else {
        1 + scan_len(s.subrange(1, s.len() as int), sep)
    }
}

proof fn lemma_scan_len_le(s: Seq<char>, sep: char)
    ensures
        scan_len(s, sep) <= s.len(),
    decreases s.len(),
{
    if s.len() == 0 || s[0] == sep {
    } else {
        lemma_scan_len_le(s.subrange(1, s.len() as int), sep);
    }
}

pub proof fn lemma_scan_len_is(s: Seq<char>, sep: char, i: int)
    requires
        0 <= i <= s.len(),
        forall|k: int| 0 <= k < i ==> s[k] != sep,
        i == s.len() || s[i] == sep,
    ensures
        scan_len(s, sep) == i,
    decreases s.len(),
{
    if i == 0 {
    } else {
        let t = s.subrange(1, s.len() as int);
        assert forall|k: int| 0 <= k < i - 1 implies t[k] != sep by {
            assert(t[k] == s[k + 1]);
        }
        lemma_scan_len_is(t, sep, i - 1);
    }
}

/// Splits `s` at every occurrence of `sep`, keeping empty pieces.
pub open spec fn split_char_spec(s: Seq<char>, sep: char) -> Seq<Seq<char>>
    decreases s.len(),
    via split_char_spec_dec
{
    let k = scan_len(s, sep);
    if k == s.len() {
        seq![s]
    } else {
        seq![s.subrange(0, k as int)] + split_char_spec(s.subrange(k as int + 1, s.len() as int), sep)
    }
}

#[via_fn]
proof fn split_char_spec_dec(s: Seq<char>, sep: char) {
    lemma_scan_len_le(s, sep);
}

proof fn lemma_split_step(s: Seq<char>, sep: char, i: int, j: int)
    requires
        0 <= i <= j <= s.len(),
        forall|k: int| i <= k < j ==> s[k] != sep,
        j == s.len() || s[j] == sep,
    ensures
        j == s.len() ==> split_char_spec(s.subrange(i, s.len() as int), sep) == seq![
            s.subrange(i, j),
        ],
        j < s.len() ==> split_char_spec(s.subrange(i, s.len() as int), sep) == seq![
            s.subrange(i, j),
        ] + split_char_spec(s.subrange(j + 1, s.len() as int), sep),
{
    let rest = s.subrange(i, s.len() as int);
    assert forall|k: int| 0 <= k < j - i implies rest[k] != sep by {
        assert(rest[k] == s[i + k]);
    }
    if j < s.len() {
        assert(rest[j - i] == s[j]);
    }
    lemma_scan_len_is(rest, sep, j - i);
    assert(rest.subrange(0, j - i) =~= s.subrange(i, j));
    if j < s.len() {
        assert(rest.subrange(j - i + 1, rest.len() as int) =~= s.subrange(j + 1, s.len() as int));
    }
}

/// Splits `s` at every occurrence of `sep`.
pub fn split_str(s: &str, sep: char) -> (r: Vec<String>)
    ensures
        seq_views(r@) == split_char_spec(s@, sep),
{
    let n: usize = s.unicode_len();
    let mut out: Vec<String> = Vec::new();
    let mut i: usize = 0;
    proof {
        assert(s@.subrange(0, n as int) =~= s@);
    }
    loop
        invariant
            i <= n,
            n == s@.len(),
            seq_views(out@) + split_char_spec(s@.subrange(i as int, n as int), sep)
                == split_char_spec(s@, sep),
        decreases n - i,
    {
        let mut j: usize = i;
        while j < n && s.get_char(j) != sep
            invariant
                i <= j <= n,
                n == s@.len(),
                forall|k: int| i <= k < j ==> s@[k] != sep,
            decreases n - j,
        {
            j = j + 1;
        }
        proof {
            lemma_split_step(s@, sep, i as int, j as int);
        }
        let piece = s.substring_char(i, j).to_owned();
        out.push(piece);
        proof {
            assert(seq_views(out@) =~= seq_views(out@.drop_last()).push(
                s@.subrange(i as int, j as int),
            ));
        }
        if j < n {
            proof {
                assert(seq_views(out@) + split_char_spec(s@.subrange(j + 1, n as int), sep)
                    =~= split_char_spec(s@, sep));
            }
            i = j + 1;
        } else {
            proof {
                assert(seq_views(out@) =~= split_char_spec(s@, sep));
            }
            return out;
        }
    }
}

/// The pieces joined with `sep` between them.
pub open spec fn join_char_spec(parts: Seq<Seq<char>>, sep: char) -> Seq<char>
    decreases parts.len(),
{
    if parts.len() == 0 {
        Seq::empty()
    } else if parts.len() == 1 {
        parts[0]
    } else {
        join_char_spec(parts.drop_last(), sep) + seq![sep] + parts.last()
    }
}

/// Joins the pieces with `sep` between them.
pub fn join_strings(parts: &Vec<String>, sep: char) -> (r: String)
    ensures
        r@ == join_char_spec(seq_views(parts@), sep),
{
    if parts.len() == 0 {
        return String::new();
    }
    let mut r = parts[0].clone();
    let mut i: usize = 1;
    proof {
        assert(seq_views(parts@.subrange(0, 1)) =~= seq![parts@[0]@]);
    }
    while i < parts.len()
        invariant
            1 <= i <= parts@.len(),
            r@ == join_char_spec(seq_views(parts@.subrange(0, i as int)), sep),
        decreases parts@.len() - i,
    {
        push_char(&mut r, sep);
        r.append(parts[i].as_str());
        proof {
            let pref = seq_views(parts@.subrange(0, i as int));
            let next = seq_views(parts@.subrange(0, i + 1));
            assert(next.drop_last() =~= pref);
            assert(next.last() == parts@[i as int]@);
        }
        i = i + 1;
    }
    proof {
        assert(parts@.subrange(0, parts@.len() as int) =~= parts@);
    }
    r
}

/// The text split at every newline; a final newline ends the last
/// line rather than opening an empty one.
pub open spec fn split_lines(s: Seq<char>) -> Seq<Seq<char>> {
    let parts = split_char_spec(s, '\n');
    if parts.len() > 0 && parts.last().len() == 0 {
        parts.drop_last()
    } else {
        parts
    }
}

/// Splits the text into its lines.
pub fn split_lines_exec(s: &str) -> (r: Vec<String>)
    ensures
        seq_views(r@) == split_lines(s@),
{
    let mut parts = split_str(s, '\n');
    proof {
        assert(split_char_spec(s@, '\n').len() >= 1);
        assert(parts@[parts@.len() - 1]@ == seq_views(parts@)[parts@.len() - 1]);
    }
    if parts[parts.len() - 1].as_str().unicode_len() == 0 {
        let ghost before = parts@;
        parts.pop();
        proof {
            assert(seq_views(parts@) =~= seq_views(before).drop_last());
        }
    }
    parts
}

/// The two strings, concatenated.
pub fn concat2(a: &str, b: &str) -> (r: String)
    ensures
        r@ == a@ + b@,
{
    let mut r = a.to_owned();
    r.append(b);
    r
}

/// The three strings, concatenated.
pub fn concat3(a: &str, b: &str, c: &str) -> (r: String)
    ensures
        r@ == a@ + b@ + c@,
{
    let mut r = a.to_owned();
    r.append(b);
    r.append(c);
    r
}

/// Lexicographic order on character sequences, by code point, with a
/// prefix ordered before its extensions.
pub open spec fn lex_le(a: Seq<char>, b: Seq<char>) -> bool
    decreases a.len(),
{
    if a.len() == 0 {
        true
    } else if b.len() == 0 {
        false
    } else if a[0] != b[0] {
        a[0] < b[0]
    } else {
        lex_le(a.subrange(1, a.len() as int), b.subrange(1, b.len() as int))
    }
}

/// Strict part of [`lex_le`].
pub open spec fn lex_lt(a: Seq<char>, b: Seq<char>) -> bool {
    lex_le(a, b) && a != b
}

pub proof fn lemma_lex_le_total(a: Seq<char>, b: Seq<char>)
    ensures
        lex_le(a, b) || lex_le(b, a),
    decreases a.len(),
{
    if a.len() == 0 || b.len() == 0 || a[0] != b[0] {
    } else {
        lemma_lex_le_total(a.subrange(1, a.len() as int), b.subrange(1, b.len() as int));
    }
}

pub proof fn lemma_lex_le_antisym(a: Seq<char>, b: Seq<char>)
    requires
        lex_le(a, b),
        lex_le(b, a),
    ensures
        a == b,
    decreases a.len(),
{
    if a.len() == 0 {
        assert(b.len() == 0);
        assert(a =~= b);
    } else {
        assert(a[0] == b[0]);
        let a1 = a.subrange(1, a.len() as int);
        let b1 = b.subrange(1, b.len() as int);
        lemma_lex_le_antisym(a1, b1);
        assert(a =~= seq![a[0]] + a1);
        assert(b =~= seq![b[0]] + b1);
    }
}

pub proof fn lemma_lex_le_trans(a: Seq<char>, b: Seq<char>, c: Seq<char>)
    requires
        lex_le(a, b),
        lex_le(b, c),
    ensures
        lex_le(a, c),
    decreases a.len(),
{
    if a.len() == 0 || b.len() == 0 || c.len() == 0 {
    } else if a[0] == b[0] && b[0] == c[0] {
        lemma_lex_le_trans(
            a.subrange(1, a.len() as int),
            b.subrange(1, b.len() as int),
            c.subrange(1, c.len() as int),
        );
    }
}

proof fn lemma_lex_le_common_prefix(a: Seq<char>, b: Seq<char>, i: int)
    requires
        0 <= i <= a.len(),
        i <= b.len(),
        forall|k: int| 0 <= k < i ==> a[k] == b[k],
    ensures
        lex_le(a, b) == lex_le(a.subrange(i, a.len() as int), b.subrange(i, b.len() as int)),
    decreases i,
{
    if i == 0 {
        assert(a.subrange(0, a.len() as int) =~= a);
        assert(b.subrange(0, b.len() as int) =~= b);
    } else {
        let a1 = a.subrange(1, a.len() as int);
        let b1 = b.subrange(1, b.len() as int);
        assert forall|k: int| 0 <= k < i - 1 implies a1[k] == b1[k] by {
            assert(a1[k] == a[k + 1]);
        }
        lemma_lex_le_common_prefix(a1, b1, i - 1);
        assert(a1.subrange(i - 1, a1.len() as int) =~= a.subrange(i, a.len() as int));
        assert(b1.subrange(i - 1, b1.len() as int) =~= b.subrange(i, b.len() as int));
    }
}

/// Executable lexicographic comparison.
pub fn str_le(a: &str, b: &str) -> (r: bool)
    ensures
        r == lex_le(a@, b@),
{
    let na: usize = a.unicode_len();
    let nb: usize = b.unicode_len();
    let mut i: usize = 0;
    while i < na && i < nb
        invariant
            i <= na,
            i <= nb,
            na == a@.len(),
            nb == b@.len(),
            forall|k: int| 0 <= k < i ==> a@[k] == b@[k],
        decreases na - i,
    {
        let ca = a.get_char(i);
        let cb = b.get_char(i);
        if ca != cb {
            proof {
                lemma_lex_le_common_prefix(a@, b@, i as int);
                assert(a@.subrange(i as int, na as int)[0] == a@[i as int]);
                assert(b@.subrange(i as int, nb as int)[0] == b@[i as int]);
            }
            return ca < cb;
        }
        i = i + 1;
    }
    proof {
        lemma_lex_le_common_prefix(a@, b@, i as int);
    }
    na <= nb
}

/// The digit character for a value below ten.
pub open spec fn digit_char(d: nat) -> char {
    if d == 0 {
        '0'
    } else if d == 1 {
        '1'
    } else if d == 2 {
        '2'
    } else if d == 3 {
        '3'
    } else if d == 4 {
        '4'
    } else if d == 5 {
        '5'
    } else if d == 6 {
        '6'
    } else if d == 7 {
        '7'
    } else if d == 8 {
        '8'
    } else {
        '9'
    }
}

/// The decimal rendering of `n`, most significant digit first.
pub open spec fn dec_str(n: nat) -> Seq<char>
    decreases n,
{
    if n < 10 {
        seq![digit_char(n)]
    } else {
        dec_str(n / 10).push(digit_char(n % 10))
    }
}

/// Executable mirror of [`digit_char`].
pub fn digit_char_exec(d: u64) -> (r: char)
    requires
        d < 10,
    ensures
        r == digit_char(d as nat),
{
    if d == 0 {
        '0'
    } else if d == 1 {
        '1'
    } else if d == 2 {
        '2'
    } else if d == 3 {
        '3'
    } else if d == 4 {
        '4'
    } else if d == 5 {
        '5'
    } else if d == 6 {
        '6'
    } else if d == 7 {
        '7'
    } else if d == 8 {
        '8'
    } else {
        '9'
    }
}

/// Renders `n` in decimal.
pub fn u128_dec(n: u128) -> (r: String)
    ensures
        r@ == dec_str(n as nat),
    decreases n,
{
    if n < 10 {
        let mut r = String::new();
        push_char(&mut r, digit_char_exec(n as u64));
        proof {
            assert(r@ =~= dec_str(n as nat));
        }
        r
    } else {
        let mut r = u128_dec(n / 10);
        push_char(&mut r, digit_char_exec((n % 10) as u64));
        proof {
            assert(r@ =~= dec_str(n as nat));
        }
        r
    }
}

/// Renders `n` in decimal.
pub fn u64_dec(n: u64) -> (r: String)
    ensures
        r@ == dec_str(n as nat),
{
    u128_dec(n as u128)
}

/// `n` copies of the character `c`.
pub open spec fn repeat_char(c: char, n: nat) -> Seq<char> {
    Seq::new(n, |i: int| c)
}

/// Builds a string of `n` copies of `c`.
pub fn repeat_str(c: char, n: usize) -> (r: String)
    ensures
        r@ == repeat_char(c, n as nat),
{
    let mut r = String::new();
    let mut i: usize = 0;
    proof {
        assert(r@ =~= repeat_char(c, 0));
    }
    while i < n
        invariant
            i <= n,
            r@ == repeat_char(c, i as nat),
        decreases n - i,
    {
        push_char(&mut r, c);
        proof {
            assert(r@ =~= repeat_char(c, i as nat + 1));
        }
        i = i + 1;
    }
    r
}

} // verus!
