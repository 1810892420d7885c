//! Project file scaffolding: the contents of `AGENTS.md`,
//! `.mercury-cortex/instructions.md` and `.mcignore`, how an existing
//! `AGENTS.md` or `.mcignore` is extended, and project slugs. Reading and
//! writing the files is done by the caller.
use vstd::prelude::*;
use vstd::string::StringExecFns;

use crate::text::{
    chars_eq, chars_of, contains_chars, contains_seq, ends_with, ends_with_chars, join,
    join_strs, lowercase, push_char, split, split_chars, to_lowercase, trim_chars, trim_ws,
    trim_start_ws, trim_end_ws, is_white_space, lemma_split_concat, lemma_split_extend,
    char_vec_views, alphanumeric, is_alphanumeric, string_from_chars, join_strings,
};

verus! {

/// The `AGENTS.md` section header whose presence means the pointer is
/// already there.
pub const AGENTS_MD_HEADER: &'static str = "## Mercury Cortex";

pub const AGENTS_MD_CONTENT: &'static str = "\
## Mercury Cortex MCP

This project uses a Mercury Cortex MCP server for cross-project code intelligence.
Read `.mercury-cortex/instructions.md` for available tools and workflows.\n";

/// The full Mercury Cortex instructions written to `.mercury-cortex/instructions.md`.
pub const INSTRUCTIONS_MD_CONTENT: &'static str = "\
# Mercury Cortex MCP

This project uses a Mercury Cortex MCP server for cross-project
code intelligence and project initialization.

The MCP server exposes all available tools and prompts dynamically
via `tools/list` and `prompts/list`.

## When to use each workflow

Two workflows are available through `prompts/get`. Pick the one that
matches what you are doing with this project.

### `mercury-cortex:dev` — ongoing development

Use for day-to-day AI-assisted development in this project:
implementing features, fixing bugs, refactoring, and searching the
indexed codebase.

### `mercury-cortex:init` — project initialization

Use to initialize this project with Mercury Cortex: analyze its
language and framework, refine `.mcignore`, generate metadata for
the source files, and import it via `metadata/import`.

If the user types **`mercury-cortex:init`** in chat, treat it as a
workflow trigger — call `prompts/get` with `name:
\"mercury-cortex:init\"` to start the init workflow. It is not a
shell command.

## How to run a workflow

1. Call `prompts/get` with the matching `name` to start the workflow.
2. Call `workflow/session` with `mode: \"init\"` or `mode: \"dev\"`
   to get the ordered step list.
3. For each step, call `workflow/step` with the same `mode` and the
   step number, then follow the returned instructions.
4. Complete each step in order. If a step fails, stop and report the
   error to the user — do not skip ahead.\n";


/// The new text of `AGENTS.md`, given its current text (`None` when the
/// file does not exist): the pointer alone for a new file; nothing to write
/// when the file already has the section header; otherwise the current
/// text, a line break if it lacks a final one, a blank line, and the
/// pointer.
pub open spec fn spec_agents_md(existing: Option<Seq<char>>) -> Option<Seq<char>> {
    match existing {
        None => Some(AGENTS_MD_CONTENT@),
        Some(e) => if contains_seq(e, AGENTS_MD_HEADER@) {
            None
        } else {
            Some(
                e + (if ends_with(e, seq!['\n']) {
                    Seq::empty()
                } else {
                    seq!['\n']
                }) + seq!['\n'] + AGENTS_MD_CONTENT@,
            )
        },
    }
}

/// What to write to `AGENTS.md` so that it points to the instructions
/// file; `None` when it needs no change.
pub fn agents_md_update(existing: Option<&str>) -> (r: Option<String>)
    ensures
        match (r, spec_agents_md(
            match existing {
                Some(e) => Some(e@),
                None => None,
            },
        )) {
            (Some(a), Some(b)) => a@ == b,
            (None, None) => true,
            _ => false,
        },
{
    match existing {
        None => Some(AGENTS_MD_CONTENT.to_string()),
        Some(e) => {
            let ev = chars_of(e);
            let hv = chars_of(AGENTS_MD_HEADER);
            if contains_chars(ev.as_slice(), hv.as_slice()) {
                return None;
            }
            let mut content = e.to_string();
            let nl = vec!['\n'];
            assert(nl@ =~= seq!['\n']);
            if !ends_with_chars(ev.as_slice(), nl.as_slice()) {
                push_char(&mut content, '\n');
            }
            push_char(&mut content, '\n');
            content.append(AGENTS_MD_CONTENT);
            proof {
                let e2 = e@ + (if ends_with(e@, seq!['\n']) {
                    Seq::<char>::empty()
                } else {
                    seq!['\n']
                });
                assert(e2 + seq!['\n'] + AGENTS_MD_CONTENT@ =~= content@);
            }
            Some(content)
        },
    }
}

/// The default `.mcignore` entries.
pub open spec fn spec_mcignore_defaults() -> Seq<Seq<char>> {
    seq![
        "target"@, "build"@, "dist"@, "out"@, ".env"@, ".git"@, ".vscode"@, ".idea"@,
        ".dart_tool"@, "node_modules"@, ".pub-cache"@, "vendor"@, ".DS_Store"@, "Thumbs.db"@,
        "desktop.ini"@, "ehthumbs.db"@, "*.tmp"@, "*.log"@, ".vs"@, ".settings"@, "*.swp"@,
        ".mercury-cortex"@,
    ]
}

/// The default `.mcignore` entries, in file order.
pub fn mcignore_defaults() -> (v: Vec<&'static str>)
    ensures
        v@.map_values(|s: &str| s@) == spec_mcignore_defaults(),
{
    let v = vec![
        "target",
        "build",
        "dist",
        "out",
        ".env",
        ".git",
        ".vscode",
        ".idea",
        ".dart_tool",
        "node_modules",
        ".pub-cache",
        "vendor",
        ".DS_Store",
        "Thumbs.db",
        "desktop.ini",
        "ehthumbs.db",
        "*.tmp",
        "*.log",
        ".vs",
        ".settings",
        "*.swp",
        ".mercury-cortex",
    ];
    assert(v@.map_values(|s: &str| s@) =~= spec_mcignore_defaults());
    v
}

/// The entries a `.mcignore` text lists: its lines, trimmed. (Blank and
/// comment lines are among them, but no default entry is blank or starts
/// with `#`, so they never match one.)
pub open spec fn listed_entries(text: Seq<char>) -> Seq<Seq<char>> {
    split(text, '\n').map_values(|l: Seq<char>| trim_ws(l))
}

/// The default entries that a `.mcignore` text does not list, in default
/// order.
pub open spec fn missing_defaults(text: Seq<char>) -> Seq<Seq<char>> {
    spec_mcignore_defaults().filter(|d: Seq<char>| !listed_entries(text).contains(d))
}

/// Each entry followed by a line break.
pub open spec fn entry_lines(entries: Seq<Seq<char>>) -> Seq<char>
    decreases entries.len(),
{
    if entries.len() == 0 {
        Seq::empty()
    } else {
        entry_lines(entries.drop_last()) + entries.last() + seq!['\n']
    }
}

/// The new text of `.mcignore`, given its current text (`None` when the
/// file does not exist): the defaults, one per line, for a new file;
/// nothing to write when every default is listed; otherwise the current
/// text, a line break if it lacks a final one, and each missing default on
/// a line of its own.
pub open spec fn spec_mcignore(existing: Option<Seq<char>>) -> Option<Seq<char>> {
    match existing {
        None => Some(join(spec_mcignore_defaults(), seq!['\n']) + seq!['\n']),
        Some(e) => if missing_defaults(e).len() == 0 {
            None
        } else {
            Some(
                e + (if ends_with(e, seq!['\n']) {
                    Seq::empty()
                } else {
                    seq!['\n']
                }) + entry_lines(missing_defaults(e)),
            )
        },
    }
}

fn listed(lines: &Vec<Vec<char>>, entry: &str) -> (b: bool)
    ensures
        b == char_vec_views(lines@).contains(entry@),
{
    let ev = chars_of(entry);
    let mut i: usize = 0;
    while i < lines.len()
        invariant
            i <= lines@.len(),
            ev@ == entry@,
            forall|k: int| 0 <= k < i ==> (#[trigger] lines@[k])@ != entry@,
        decreases lines@.len() - i,
    {
        if chars_eq(lines[i].as_slice(), ev.as_slice()) {
            assert(char_vec_views(lines@)[i as int] == entry@);
            return true;
        }
        i = i + 1;
    }
    proof {
        if char_vec_views(lines@).contains(entry@) {
            let k = choose|k: int| 0 <= k < lines@.len() && char_vec_views(lines@)[k] == entry@;
            assert(lines@[k]@ == entry@);
        }
    }
    false
}

/// What to write to `.mcignore` so that it lists every default entry;
/// `None` when it needs no change.
pub fn mcignore_update(existing: Option<&str>) -> (r: Option<String>)
    ensures
        match (r, spec_mcignore(
            match existing {
                Some(e) => Some(e@),
                None => None,
            },
        )) {
            (Some(a), Some(b)) => a@ == b,
            (None, None) => true,
            _ => false,
        },
{
    let defaults = mcignore_defaults();
    let ghost dv = defaults@.map_values(|s: &str| s@);
    match existing {
        None => {
            let mut content = join_strs(&defaults, "\n");
            push_char(&mut content, '\n');
            assert(seq!['\n'] =~= "\n"@) by {
                reveal_strlit("\n");
            }
            Some(content)
        },
        Some(e) => {
            let ev = chars_of(e);
            let raw = split_chars(ev.as_slice(), '\n');
            let mut lines: Vec<Vec<char>> = Vec::new();
            let mut i: usize = 0;
            while i < raw.len()
                invariant
                    i <= raw@.len(),
                    char_vec_views(raw@) == split(e@, '\n'),
                    char_vec_views(lines@) == char_vec_views(raw@).take(i as int).map_values(
                        |l: Seq<char>| trim_ws(l),
                    ),
                decreases raw@.len() - i,
            {
                let t = trim_chars(raw[i].as_slice());
                let ghost before = char_vec_views(lines@);
                let ghost tv = t@;
                assert(tv == trim_ws(char_vec_views(raw@)[i as int]));
                lines.push(t);
                assert(char_vec_views(lines@) =~= before.push(tv));
                assert(char_vec_views(raw@).take(i + 1) =~= char_vec_views(raw@).take(i as int).push(
                    char_vec_views(raw@)[i as int],
                ));
                assert(char_vec_views(lines@) =~= char_vec_views(raw@).take(i + 1).map_values(
                    |l: Seq<char>| trim_ws(l),
                ));
                i = i + 1;
            }
            assert(char_vec_views(raw@).take(raw@.len() as int) =~= char_vec_views(raw@));
            assert(char_vec_views(lines@) == listed_entries(e@));
            let ghost pred = |d: Seq<char>| !listed_entries(e@).contains(d);
            let mut missing: Vec<&str> = Vec::new();
            let mut j: usize = 0;
            while j < defaults.len()
                invariant
                    j <= defaults@.len(),
                    dv == defaults@.map_values(|s: &str| s@),
                    dv == spec_mcignore_defaults(),
                    char_vec_views(lines@) == listed_entries(e@),
                    pred == (|d: Seq<char>| !listed_entries(e@).contains(d)),
                    missing@.map_values(|s: &str| s@) == dv.take(j as int).filter(pred),
                decreases defaults@.len() - j,
            {
                let d = defaults[j];
                proof {
                    assert(dv.take(j + 1) =~= dv.take(j as int).push(d@));
                    dv.take(j as int).lemma_filter_push(d@, pred);
                }
                if !listed(&lines, d) {
                    let ghost before = missing@.map_values(|s: &str| s@);
                    missing.push(d);
                    assert(missing@.map_values(|s: &str| s@) =~= before.push(d@));
                }
                j = j + 1;
            }
            assert(dv.take(defaults@.len() as int) =~= dv);
            let ghost mv = missing@.map_values(|s: &str| s@);
            assert(mv == missing_defaults(e@));
            if missing.len() == 0 {
                return None;
            }
            let mut content = e.to_string();
            let nl = vec!['\n'];
            assert(nl@ =~= seq!['\n']);
            if !ends_with_chars(ev.as_slice(), nl.as_slice()) {
                push_char(&mut content, '\n');
            }
            let ghost head = content@;
            let mut k: usize = 0;
            while k < missing.len()
                invariant
                    k <= missing@.len(),
                    mv == missing@.map_values(|s: &str| s@),
                    content@ == head + entry_lines(mv.take(k as int)),
                decreases missing@.len() - k,
            {
                content.append(missing[k]);
                push_char(&mut content, '\n');
                assert(mv.take(k + 1).drop_last() =~= mv.take(k as int));
                assert(content@ =~= head + entry_lines(mv.take(k + 1)));
                k = k + 1;
            }
            assert(mv.take(missing@.len() as int) =~= mv);
            Some(content)
        },
    }
}

/// A character of a slug: alphanumerics and `-` stay, anything else becomes
/// `-`.
pub open spec fn slug_char(c: char) -> char {
    if alphanumeric(c) || c == '-' {
        c
    } else {
        '-'
    }
}

/// The slug of a name: lowercased, every other character turned into `-`,
/// and the non-empty `-`-separated runs joined by single `-`s (no leading,
/// trailing or doubled `-`).
pub open spec fn spec_slugify(input: Seq<char>) -> Seq<char> {
    join(
        split(lowercase(input).map_values(|c: char| slug_char(c)), '-').filter(
            |p: Seq<char>| p.len() > 0,
        ),
        seq!['-'],
    )
}

/// Converts a directory name to a URL-safe slug.
pub fn slugify(input: &str) -> (s: String)
    ensures
        s@ == spec_slugify(input@),
{
    let lower = to_lowercase(input);
    let lv = chars_of(lower.as_str());
    let mut mapped: Vec<char> = Vec::new();
    let mut i: usize = 0;
    while i < lv.len()
        invariant
            i <= lv@.len(),
            mapped@ == lv@.take(i as int).map_values(|c: char| slug_char(c)),
        decreases lv@.len() - i,
    {
        let c = lv[i];
        let keep = is_alphanumeric(c) || c == '-';
        mapped.push(if keep { c } else { '-' });
        assert(mapped@ =~= lv@.take(i + 1).map_values(|c: char| slug_char(c)));
        i = i + 1;
    }
    assert(lv@.take(lv@.len() as int) =~= lv@);
    let parts = split_chars(mapped.as_slice(), '-');
    let ghost pv = char_vec_views(parts@);
    let ghost pred = |p: Seq<char>| p.len() > 0;
    let mut out: Vec<String> = Vec::new();
    let mut k: usize = 0;
    while k < parts.len()
        invariant
            k <= parts@.len(),
            pv == char_vec_views(parts@),
            pred == (|p: Seq<char>| p.len() > 0),
            out@.map_values(|p: String| p@) == pv.take(k as int).filter(pred),
        decreases parts@.len() - k,
    {
        proof {
            assert(pv.take(k + 1) =~= pv.take(k as int).push(pv[k as int]));
            pv.take(k as int).lemma_filter_push(pv[k as int], pred);
        }
        if parts[k].len() > 0 {
            let piece = string_from_chars(parts[k].as_slice());
            let ghost before = out@.map_values(|p: String| p@);
            out.push(piece);
            assert(out@.map_values(|p: String| p@) =~= before.push(pv[k as int]));
        }
        k = k + 1;
    }
    assert(pv.take(parts@.len() as int) =~= pv);
    proof {
        reveal_strlit("-");
        assert("-"@ =~= seq!['-']);
    }
    join_strings(&out, "-")
}

/// A well-formed slug: alphanumeric characters in runs joined by single
/// `-`s, with no `-` at either end.
pub open spec fn is_slug(s: Seq<char>) -> bool {
    &&& forall|i: int| 0 <= i < s.len() ==> (#[trigger] s[i] == '-' || alphanumeric(s[i]))
    &&& s.len() > 0 ==> s[0] != '-' && s.last() != '-'
    &&& forall|i: int| 0 <= i < s.len() - 1 ==> !(#[trigger] s[i] == '-' && s[i + 1] == '-')
}

/// A run of a slug: non-empty, alphanumeric, no `-`.
pub open spec fn is_slug_run(p: Seq<char>) -> bool {
    p.len() > 0 && forall|i: int| 0 <= i < p.len() ==> alphanumeric(#[trigger] p[i]) && p[i] != '-'
}

proof fn lemma_split_runs(s: Seq<char>)
    requires
        forall|i: int| 0 <= i < s.len() ==> (#[trigger] s[i] == '-' || alphanumeric(s[i])),
    ensures
        forall|k: int, i: int|
            0 <= k < split(s, '-').len() && 0 <= i < split(s, '-')[k].len() ==> alphanumeric(
                #[trigger] split(s, '-')[k][i],
            ) && split(s, '-')[k][i] != '-',
    decreases s.len(),
{
    if s.len() > 0 {
        let t = s.drop_last();
        assert forall|i: int| 0 <= i < t.len() implies (#[trigger] t[i] == '-' || alphanumeric(t[i])) by {
            assert(t[i] == s[i]);
        }
        lemma_split_runs(t);
        let parts = split(t, '-');
        crate::text::lemma_split_len(t, '-');
        if s.last() != '-' {
            assert(alphanumeric(s[s.len() - 1]));
            let up = parts.update(parts.len() - 1, parts.last().push(s.last()));
            assert forall|k: int, i: int|
                0 <= k < up.len() && 0 <= i < up[k].len() implies alphanumeric(#[trigger] up[k][i])
                && up[k][i] != '-' by {
                if k < parts.len() - 1 {
                    assert(up[k] == parts[k]);
                } else if i < parts.last().len() {
                    assert(up[k][i] == parts[k][i]);
                }
            }
        } else {
            let pushed = parts.push(Seq::empty());
            assert forall|k: int, i: int|
                0 <= k < pushed.len() && 0 <= i < pushed[k].len() implies alphanumeric(
                #[trigger] pushed[k][i],
            ) && pushed[k][i] != '-' by {
                assert(pushed[k] == parts[k]);
            }
        }
    }
}

proof fn lemma_join_runs(parts: Seq<Seq<char>>)
    requires
        forall|k: int| 0 <= k < parts.len() ==> is_slug_run(#[trigger] parts[k]),
    ensures
        is_slug(join(parts, seq!['-'])),
        parts.len() > 0 ==> join(parts, seq!['-']).len() > 0,
    decreases parts.len(),
{
    if parts.len() == 1 {
        assert(is_slug_run(parts[0]));
    } else if parts.len() > 1 {
        let t = parts.drop_last();
        assert forall|k: int| 0 <= k < t.len() implies is_slug_run(#[trigger] t[k]) by {
            assert(t[k] == parts[k]);
        }
        lemma_join_runs(t);
        let a = join(t, seq!['-']);
        let l = parts.last();
        assert(is_slug_run(parts[parts.len() - 1]));
        let j = a + seq!['-'] + l;
        assert(join(parts, seq!['-']) == j);
        assert forall|i: int| 0 <= i < j.len() implies (#[trigger] j[i] == '-' || alphanumeric(j[i])) by {
            if i < a.len() {
                assert(j[i] == a[i]);
            } else if i > a.len() {
                assert(j[i] == l[i - a.len() - 1]);
            }
        }
        assert forall|i: int| 0 <= i < j.len() - 1 implies !(#[trigger] j[i] == '-' && j[i + 1] == '-') by {
            if i < a.len() - 1 {
                assert(j[i] == a[i] && j[i + 1] == a[i + 1]);
            } else if i == a.len() - 1 {
                assert(j[i] == a.last());
            } else if i == a.len() {
                assert(j[i + 1] == l[0]);
            } else {
                assert(j[i] == l[i - a.len() - 1] && j[i + 1] == l[i - a.len()]);
            }
        }
        assert(j[0] == a[0]);
        assert(j.last() == l.last());
    }
}

/// A slug is well formed whatever the name it came from: only
/// alphanumerics and single `-`s between them.
pub proof fn lemma_slug_well_formed(input: Seq<char>)
    ensures
        is_slug(spec_slugify(input)),
{
    let mapped = lowercase(input).map_values(|c: char| slug_char(c));
    assert forall|i: int| 0 <= i < mapped.len() implies (#[trigger] mapped[i] == '-' || alphanumeric(
        mapped[i],
    )) by {
        let c = lowercase(input)[i];
        assert(mapped[i] == slug_char(c));
    }
    lemma_split_runs(mapped);
    let parts = split(mapped, '-');
    let pred = |p: Seq<char>| p.len() > 0;
    let kept = parts.filter(pred);
    assert forall|k: int| 0 <= k < kept.len() implies is_slug_run(#[trigger] kept[k]) by {
        parts.lemma_filter_pred(pred, k);
        parts.lemma_filter_contains_rev(pred, kept[k]);
        let w = choose|w: int| 0 <= w < parts.len() && parts[w] == kept[k];
        assert forall|i: int| 0 <= i < kept[k].len() implies alphanumeric(#[trigger] kept[k][i])
            && kept[k][i] != '-' by {
            assert(kept[k][i] == parts[w][i]);
        }
    }
    lemma_join_runs(kept);
}

proof fn lemma_content_has_header()
    ensures
        AGENTS_MD_CONTENT@.subrange(0, AGENTS_MD_HEADER@.len() as int) == AGENTS_MD_HEADER@,
        AGENTS_MD_HEADER@.len() <= AGENTS_MD_CONTENT@.len(),
{
    reveal_strlit("## Mercury Cortex");
    reveal_strlit("## Mercury Cortex MCP\n\nThis project uses a Mercury Cortex MCP server for cross-project code intelligence.\nRead `.mercury-cortex/instructions.md` for available tools and workflows.\n");
    assert(AGENTS_MD_CONTENT@.subrange(0, AGENTS_MD_HEADER@.len() as int) =~= AGENTS_MD_HEADER@);
}

/// Updating `AGENTS.md` is idempotent: once written, the file holds the
/// section header and a second update leaves it alone.
pub proof fn lemma_agents_md_idempotent(existing: Option<Seq<char>>)
    ensures
        spec_agents_md(existing) matches Some(t) ==> spec_agents_md(Some(t)) is None,
{
    lemma_content_has_header();
    let h = AGENTS_MD_HEADER@;
    let c = AGENTS_MD_CONTENT@;
    match spec_agents_md(existing) {
        Some(t) => {
            let at = t.len() - c.len();
            assert(t.subrange(at, at + c.len()) =~= c);
            assert(t.subrange(at, at + h.len()) =~= h) by {
                assert forall|i: int| 0 <= i < h.len() implies t.subrange(at, at + h.len())[i]
                    == h[i] by {
                    assert(t[at + i] == c[i]);
                    assert(c.subrange(0, h.len() as int)[i] == c[i]);
                }
            }
            assert(0 <= at && at + h.len() <= t.len());
            assert(contains_seq(t, h));
        },
        None => {},
    }
}

/// No entry holds a line break.
pub open spec fn single_line_entries(l: Seq<Seq<char>>) -> bool {
    forall|i: int| 0 <= i < l.len() ==> !(#[trigger] l[i]).contains('\n')
}

/// The lines of entries written one per line: the entries, then the empty
/// field after the final line break.
proof fn lemma_split_entry_lines(l: Seq<Seq<char>>)
    requires
        single_line_entries(l),
    ensures
        split(entry_lines(l), '\n') =~= l.push(Seq::empty()),
    decreases l.len(),
{
    if l.len() > 0 {
        let l1 = l.drop_last();
        assert(single_line_entries(l1)) by {
            assert forall|i: int| 0 <= i < l1.len() implies !(#[trigger] l1[i]).contains('\n') by {
                assert(l1[i] == l[i]);
            }
        }
        lemma_split_entry_lines(l1);
        let p = entry_lines(l1);
        assert(!l.last().contains('\n')) by {
            assert(l[l.len() - 1] == l.last());
        }
        lemma_split_extend(p, l.last(), '\n');
        assert(Seq::<char>::empty() + l.last() =~= l.last());
        lemma_split_concat(p + l.last(), Seq::empty(), '\n');
        assert(p + l.last() + seq!['\n'] + Seq::<char>::empty() =~= entry_lines(l));
        assert(split(Seq::<char>::empty(), '\n') =~= seq![Seq::<char>::empty()]);
    }
}

/// Joining entries with line breaks and ending with one writes each on a
/// line of its own.
proof fn lemma_join_is_entry_lines(l: Seq<Seq<char>>)
    requires
        l.len() > 0,
    ensures
        join(l, seq!['\n']) + seq!['\n'] =~= entry_lines(l),
    decreases l.len(),
{
    if l.len() == 1 {
        assert(entry_lines(l.drop_last()) =~= Seq::<char>::empty());
    } else {
        lemma_join_is_entry_lines(l.drop_last());
    }
}

/// Text with no whitespace at either end is its own trim.
proof fn lemma_trim_untouched(d: Seq<char>)
    requires
        d.len() > 0,
        !is_white_space(d[0]),
        !is_white_space(d.last()),
    ensures
        trim_ws(d) == d,
{
    assert(trim_start_ws(d) == d);
    assert(trim_end_ws(d) == d);
}

/// The default entries hold no line break and no surrounding whitespace.
proof fn lemma_defaults_plain()
    ensures
        single_line_entries(spec_mcignore_defaults()),
        forall|i: int|
            0 <= i < spec_mcignore_defaults().len() ==> (#[trigger] spec_mcignore_defaults()[i]).len()
                > 0,
        forall|i: int|
            0 <= i < spec_mcignore_defaults().len() ==> trim_ws(
                #[trigger] spec_mcignore_defaults()[i],
            ) == spec_mcignore_defaults()[i],
{
    reveal_strlit("target");
    reveal_strlit("build");
    reveal_strlit("dist");
    reveal_strlit("out");
    reveal_strlit(".env");
    reveal_strlit(".git");
    reveal_strlit(".vscode");
    reveal_strlit(".idea");
    reveal_strlit(".dart_tool");
    reveal_strlit("node_modules");
    reveal_strlit(".pub-cache");
    reveal_strlit("vendor");
    reveal_strlit(".DS_Store");
    reveal_strlit("Thumbs.db");
    reveal_strlit("desktop.ini");
    reveal_strlit("ehthumbs.db");
    reveal_strlit("*.tmp");
    reveal_strlit("*.log");
    reveal_strlit(".vs");
    reveal_strlit(".settings");
    reveal_strlit("*.swp");
    reveal_strlit(".mercury-cortex");
    let defs = spec_mcignore_defaults();
    assert forall|i: int| 0 <= i < defs.len() implies !(#[trigger] defs[i]).contains('\n')
        && trim_ws(defs[i]) == defs[i] && defs[i].len() > 0 by {
        let d = defs[i];
        assert(d.len() > 0);
        assert(forall|k: int| 0 <= k < d.len() ==> d[k] != '\n');
        assert(!is_white_space(d[0]));
        assert(!is_white_space(d.last()));
        lemma_trim_untouched(d);
    }
}

/// Every entry of `l` is listed in a text whose lines are `pre`, then the
/// entries of `l`, then more.
proof fn lemma_listed_from_lines(t: Seq<char>, l: Seq<Seq<char>>, pre: Seq<Seq<char>>)
    requires
        split(t, '\n') =~= pre + l.push(Seq::empty()),
        forall|i: int| 0 <= i < l.len() ==> trim_ws(#[trigger] l[i]) == l[i],
    ensures
        forall|i: int| 0 <= i < l.len() ==> listed_entries(t).contains(#[trigger] l[i]),
{
    assert forall|i: int| 0 <= i < l.len() implies listed_entries(t).contains(#[trigger] l[i]) by {
        let k = pre.len() + i;
        assert(split(t, '\n')[k] == l[i]);
        assert(listed_entries(t)[k] == trim_ws(l[i]));
    }
}

/// Updating `.mcignore` lists every default entry and keeps what was
/// there: the text written lists each default as a trimmed line, extends
/// the current text (a new file is the defaults, one per line), and a
/// second update writes nothing.
pub proof fn lemma_mcignore_idempotent(existing: Option<Seq<char>>)
    ensures
        spec_mcignore(existing) matches Some(t) ==> spec_mcignore(Some(t)) is None,
        spec_mcignore(existing) matches Some(t) ==> forall|i: int|
            0 <= i < spec_mcignore_defaults().len() ==> listed_entries(t).contains(
                #[trigger] spec_mcignore_defaults()[i],
            ),
        existing is None ==> spec_mcignore(existing) == Some(
            join(spec_mcignore_defaults(), seq!['\n']) + seq!['\n'],
        ),
        existing matches Some(e) ==> (spec_mcignore(existing) matches Some(t) ==> t.len() >= e.len()
            && t.subrange(0, e.len() as int) == e),
        existing matches Some(e) ==> (spec_mcignore(existing) is None <==> forall|i: int|
            0 <= i < spec_mcignore_defaults().len() ==> listed_entries(e).contains(
                #[trigger] spec_mcignore_defaults()[i],
            )),
{
    lemma_defaults_plain();
    let defs = spec_mcignore_defaults();
    if let Some(e) = existing {
        let pred = |d: Seq<char>| !listed_entries(e).contains(d);
        if forall|i: int| 0 <= i < defs.len() ==> listed_entries(e).contains(#[trigger] defs[i]) {
            assert(defs.all(|x: Seq<char>| !pred(x)));
            defs.lemma_all_neg_filter_empty(pred);
        } else {
            let i = choose|i: int| 0 <= i < defs.len() && !listed_entries(e).contains(#[trigger] defs[i]);
            defs.lemma_filter_contains(pred, i);
            assert(missing_defaults(e) == defs.filter(pred));
        }
    }
    match spec_mcignore(existing) {
        None => {},
        Some(t) => {
            match existing {
                None => {
                    lemma_join_is_entry_lines(defs);
                    lemma_split_entry_lines(defs);
                    assert(Seq::<Seq<char>>::empty() + defs.push(Seq::empty()) =~= defs.push(
                        Seq::empty(),
                    ));
                    lemma_listed_from_lines(t, defs, Seq::empty());
                },
                Some(e) => {
                    let m = missing_defaults(e);
                    let pred = |d: Seq<char>| !listed_entries(e).contains(d);
                    assert forall|i: int| 0 <= i < m.len() implies defs.contains(#[trigger] m[i])
                        by {
                        assert(m.contains(m[i]));
                        defs.lemma_filter_contains_rev(pred, m[i]);
                    }
                    assert(single_line_entries(m)) by {
                        assert forall|i: int| 0 <= i < m.len() implies !(#[trigger] m[i]).contains(
                            '\n',
                        ) by {
                            let j = choose|j: int| 0 <= j < defs.len() && defs[j] == m[i];
                            assert(!defs[j].contains('\n'));
                        }
                    }
                    assert forall|i: int| 0 <= i < m.len() implies trim_ws(#[trigger] m[i])
                        == m[i] by {
                        let j = choose|j: int| 0 <= j < defs.len() && defs[j] == m[i];
                        assert(trim_ws(defs[j]) == defs[j]);
                    }
                    lemma_split_entry_lines(m);
                    // the lines of `e` stay lines of `t`
                    let body = if ends_with(e, seq!['\n']) {
                        e.drop_last()
                    } else {
                        e
                    };
                    assert(t =~= body + seq!['\n'] + entry_lines(m)) by {
                        if ends_with(e, seq!['\n']) {
                            assert(e =~= e.drop_last() + seq!['\n']);
                        }
                    }
                    lemma_split_concat(body, entry_lines(m), '\n');
                    lemma_listed_from_lines(t, m, split(body, '\n'));
                    assert forall|i: int| 0 <= i < defs.len() implies listed_entries(t).contains(
                        #[trigger] defs[i],
                    ) by {
                        if listed_entries(e).contains(defs[i]) {
                            let k = choose|k: int|
                                0 <= k < listed_entries(e).len() && listed_entries(e)[k] == defs[i];
                            assert(defs[i].len() > 0);
                            if ends_with(e, seq!['\n']) {
                                lemma_split_concat(body, Seq::empty(), '\n');
                                assert(body + seq!['\n'] + Seq::<char>::empty() =~= e);
                                assert(split(Seq::<char>::empty(), '\n') =~= seq![Seq::<char>::empty()]);
                                assert(split(e, '\n') =~= split(body, '\n').push(Seq::empty()));
                                if k == split(body, '\n').len() {
                                    assert(trim_ws(Seq::<char>::empty()) =~= Seq::<char>::empty());
                                    assert(listed_entries(e)[k] == trim_ws(split(e, '\n')[k]));
                                    assert(false);
                                }
                            } else {
                                assert(body == e);
                            }
                            assert(k < split(body, '\n').len());
                            assert(split(e, '\n')[k] == split(body, '\n')[k]);
                            assert(split(e, '\n')[k] == split(t, '\n')[k]);
                            assert(listed_entries(t)[k] == defs[i]);
                        } else {
                            assert(pred(defs[i]));
                            defs.lemma_filter_contains(pred, i);
                            let j = choose|j: int| 0 <= j < m.len() && m[j] == defs[i];
                            assert(listed_entries(t).contains(m[j]));
                        }
                    }
                },
            }
            assert(defs.all(|x: Seq<char>| !(!listed_entries(t).contains(x))));
            defs.lemma_all_neg_filter_empty(|d: Seq<char>| !listed_entries(t).contains(d));
        },
    }
}

proof fn lemma_join_split(s: Seq<char>, sep: char)
    ensures
        join(split(s, sep), seq![sep]) == s,
    decreases s.len(),
{
    if s.len() == 0 {
        assert(split(s, sep) =~= seq![Seq::<char>::empty()]);
    } else {
        let t = s.drop_last();
        let c = s.last();
        lemma_join_split(t, sep);
        crate::text::lemma_split_len(t, sep);
        let parts = split(t, sep);
        if c == sep {
            let q = parts.push(Seq::<char>::empty());
            assert(split(s, sep) == q);
            assert(q.drop_last() =~= parts);
            assert(join(q, seq![sep]) == join(parts, seq![sep]) + seq![sep] + q.last());
            assert(s =~= t + seq![sep] + Seq::<char>::empty());
        } else {
            let up = parts.update(parts.len() - 1, parts.last().push(c));
            assert(split(s, sep) == up);
            if parts.len() == 1 {
                assert(join(parts, seq![sep]) == parts[0]);
                assert(up[0] == parts[0].push(c));
                assert(s =~= t.push(c));
            } else {
                assert(up.drop_last() =~= parts.drop_last());
                assert(up.last() == parts.last().push(c));
                assert(join(up, seq![sep]) == join(parts.drop_last(), seq![sep]) + seq![sep] + up.last());
                assert(join(parts, seq![sep]) == join(parts.drop_last(), seq![sep]) + seq![sep]
                    + parts.last());
                assert(join(up, seq![sep]) =~= join(parts, seq![sep]).push(c));
                assert(s =~= t.push(c));
            }
        }
    }
}

proof fn lemma_split_parts_nonempty(s: Seq<char>, sep: char)
    requires
        s.len() > 0 ==> s[0] != sep,
        forall|i: int| 0 <= i < s.len() - 1 ==> !(#[trigger] s[i] == sep && s[i + 1] == sep),
    ensures
        forall|k: int| 0 <= k < split(s, sep).len() - 1 ==> (#[trigger] split(s, sep)[k]).len() > 0,
        s.len() > 0 && s.last() != sep ==> split(s, sep).last().len() > 0,
    decreases s.len(),
{
    if s.len() > 0 {
        let t = s.drop_last();
        let c = s.last();
        assert forall|i: int| 0 <= i < t.len() - 1 implies !(#[trigger] t[i] == sep && t[i + 1] == sep) by {
            assert(t[i] == s[i] && t[i + 1] == s[i + 1]);
        }
        if t.len() > 0 {
            assert(t[0] == s[0]);
        }
        lemma_split_parts_nonempty(t, sep);
        crate::text::lemma_split_len(t, sep);
        let parts = split(t, sep);
        if c == sep {
            assert(t.len() > 0);
            assert(t.last() != sep) by {
                assert(s[s.len() - 2] == t.last());
                assert(s[s.len() - 1] == c);
            }
            let q = parts.push(Seq::<char>::empty());
            assert(split(s, sep) == q);
            assert forall|k: int| 0 <= k < q.len() - 1 implies (#[trigger] q[k]).len() > 0 by {
                assert(q[k] == parts[k]);
                if k == parts.len() - 1 {
                    assert(parts[k] == parts.last());
                }
            }
        } else {
            let up = parts.update(parts.len() - 1, parts.last().push(c));
            assert(split(s, sep) == up);
            assert forall|k: int| 0 <= k < up.len() - 1 implies (#[trigger] up[k]).len() > 0 by {
                assert(up[k] == parts[k]);
            }
            assert(up.last() == parts.last().push(c));
        }
    }
}

proof fn lemma_filter_keeps_all(parts: Seq<Seq<char>>)
    requires
        forall|k: int| 0 <= k < parts.len() ==> (#[trigger] parts[k]).len() > 0,
    ensures
        parts.filter(|p: Seq<char>| p.len() > 0) == parts,
    decreases parts.len(),
{
    reveal(Seq::filter);
    if parts.len() > 0 {
        let t = parts.drop_last();
        assert forall|k: int| 0 <= k < t.len() implies (#[trigger] t[k]).len() > 0 by {
            assert(t[k] == parts[k]);
        }
        lemma_filter_keeps_all(t);
        assert(parts[parts.len() - 1] == parts.last());
        assert(t.push(parts.last()) =~= parts);
    }
}

/// A slug that lowercasing leaves alone is its own slug.
proof fn lemma_slug_fixed(s: Seq<char>)
    requires
        is_slug(s),
        lowercase(s) == s,
    ensures
        spec_slugify(s) == s,
{
    let mapped = lowercase(s).map_values(|c: char| slug_char(c));
    assert(mapped =~= s) by {
        assert forall|i: int| 0 <= i < s.len() implies mapped[i] == s[i] by {
            assert(s[i] == '-' || alphanumeric(s[i]));
        }
    }
    let parts = split(s, '-');
    if s.len() == 0 {
        assert(parts =~= seq![Seq::<char>::empty()]);
        let pred = |p: Seq<char>| p.len() > 0;
        assert(parts.all(|x: Seq<char>| !pred(x)));
        parts.lemma_all_neg_filter_empty(pred);
        assert(parts.filter(pred) =~= Seq::<Seq<char>>::empty());
    } else {
        lemma_split_parts_nonempty(s, '-');
        crate::text::lemma_split_len(s, '-');
        assert forall|k: int| 0 <= k < parts.len() implies (#[trigger] parts[k]).len() > 0 by {
            if k == parts.len() - 1 {
                assert(parts[k] == parts.last());
            }
        }
        lemma_filter_keeps_all(parts);
        lemma_join_split(s, '-');
    }
}

/// Slugifying a slug changes nothing, as long as lowercasing leaves the
/// slug alone (as it leaves any text without upper-case letters).
pub proof fn lemma_slugify_idempotent(input: Seq<char>)
    requires
        lowercase(spec_slugify(input)) == spec_slugify(input),
    ensures
        spec_slugify(spec_slugify(input)) == spec_slugify(input),
{
    lemma_slug_well_formed(input);
    lemma_slug_fixed(spec_slugify(input));
}

} // verus!
