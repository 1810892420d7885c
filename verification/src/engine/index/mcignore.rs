//! Compiled `.mcignore` pattern set used to exclude paths from indexing.
use vstd::prelude::*;
use vstd::string::StringExecFns;

use crate::text::{
    char_vec_views, chars_eq, chars_of, ends_with, ends_with_chars, has_char, split,
    split_chars, starts_with, starts_with_chars, trim_chars,
    trim_end_char, trim_end_char_chars, trim_ws,
};

verus! {

// ---------------------------------------------------------------------------
// Glob matching within one path segment
// ---------------------------------------------------------------------------

/// Whether `v[i..]` matches the glob `p[j..]`, where `*` matches any run of
/// characters and `?` any single character.
pub open spec fn glob_at(v: Seq<char>, p: Seq<char>, i: int, j: int) -> bool
    decreases (v.len() - i) + (p.len() - j),
{
    if i < 0 || i > v.len() || j < 0 || j > p.len() {
        false
    } else if j == p.len() {
        i == v.len()
    } else if p[j] == '*' {
        glob_at(v, p, i, j + 1) || (i < v.len() && glob_at(v, p, i + 1, j))
    } else if i == v.len() {
        false
    } else if p[j] == '?' || p[j] == v[i] {
        glob_at(v, p, i + 1, j + 1)
    } else {
        false
    }
}

/// Whether some `v[k..]` with `lo <= k` matches `p[j + 1..]`: what the star
/// at `p[j]` can still be extended to.
pub open spec fn star_from(v: Seq<char>, p: Seq<char>, lo: int, j: int) -> bool
    decreases v.len() + 1 - lo,
{
    if lo < 0 || lo > v.len() {
        false
    } else {
        glob_at(v, p, lo, j + 1) || star_from(v, p, lo + 1, j)
    }
}

proof fn lemma_star_expand(v: Seq<char>, p: Seq<char>, i: int, j: int)
    requires
        0 <= i <= v.len(),
        0 <= j < p.len(),
        p[j] == '*',
    ensures
        glob_at(v, p, i, j) == star_from(v, p, i, j),
    decreases v.len() - i,
{
    if i < v.len() {
        lemma_star_expand(v, p, i + 1, j);
        assert(glob_at(v, p, i, j) == (glob_at(v, p, i, j + 1) || glob_at(v, p, i + 1, j)));
        assert(star_from(v, p, i, j) == (glob_at(v, p, i, j + 1) || star_from(v, p, i + 1, j)));
    } else {
        assert(!star_from(v, p, i + 1, j));
        assert(star_from(v, p, i, j) == glob_at(v, p, i, j + 1));
    }
}

proof fn lemma_star_from_mono(v: Seq<char>, p: Seq<char>, a: int, b: int, j: int)
    requires
        0 <= a <= b,
        star_from(v, p, b, j),
    ensures
        star_from(v, p, a, j),
    decreases b - a,
{
    if a < b {
        lemma_star_from_mono(v, p, a + 1, b, j);
    }
}

proof fn lemma_star_from_witness(v: Seq<char>, p: Seq<char>, lo: int, j: int) -> (k: int)
    requires
        star_from(v, p, lo, j),
    ensures
        lo <= k <= v.len(),
        glob_at(v, p, k, j + 1),
    decreases v.len() + 1 - lo,
{
    if glob_at(v, p, lo, j + 1) {
        lo
    } else {
        lemma_star_from_witness(v, p, lo + 1, j)
    }
}

proof fn lemma_walk_literal(v: Seq<char>, p: Seq<char>, i: int, j: int, len: int)
    requires
        0 <= len,
        0 <= j,
        j + len <= p.len(),
        forall|t: int| j <= t < j + len ==> #[trigger] p[t] != '*',
        glob_at(v, p, i, j),
    ensures
        i + len <= v.len(),
        glob_at(v, p, i + len, j + len),
    decreases len,
{
    if len > 0 {
        assert(p[j] != '*');
        lemma_walk_literal(v, p, i + 1, j + 1, len - 1);
    }
}

/// Single-segment wildcard matching: `*` matches any run of characters, `?`
/// any single character, every other character itself.
pub fn wildcard_match(value: &[char], pattern: &[char]) -> (b: bool)
    ensures
        b == glob_at(value@, pattern@, 0, 0),
{
    let ghost v = value@;
    let ghost p = pattern@;
    let ghost r = glob_at(v, p, 0, 0);
    let mut vp: usize = 0;
    let mut pp: usize = 0;
    let mut star: Option<(usize, usize)> = None;
    let ghost mut sv_g: int = -1;
    loop
        invariant
            v == value@,
            p == pattern@,
            r == glob_at(v, p, 0, 0),
            vp <= v.len(),
            pp <= p.len(),
            match star {
                None => sv_g == -1 && r == glob_at(v, p, vp as int, pp as int),
                Some((sv, sp)) => {
                    &&& sv_g == sv
                    &&& sv <= vp
                    &&& sp < pp
                    &&& p[sp as int] == '*'
                    &&& pp - sp - 1 == vp - sv
                    &&& forall|t: int| sp < t < pp ==> #[trigger] p[t] != '*'
                    &&& glob_at(v, p, sv as int, sp + 1) == glob_at(v, p, vp as int, pp as int)
                    &&& r == star_from(v, p, sv as int, sp as int)
                },
            },
        decreases v.len() - sv_g, (v.len() - vp) + (p.len() - pp),
    {
        if pp < pattern.len() && pattern[pp] == '*' {
            proof {
                lemma_star_expand(v, p, vp as int, pp as int);
                match star {
                    None => {},
                    Some((sv, sp)) => {
                        if star_from(v, p, sv + 1, sp as int) {
                            let k = lemma_star_from_witness(v, p, sv + 1, sp as int);
                            let len = pp - sp - 1;
                            lemma_walk_literal(v, p, k, sp + 1, len);
                            lemma_star_expand(v, p, k + len, pp as int);
                            lemma_star_from_mono(v, p, vp as int, k + len, pp as int);
                        }
                    },
                }
            }
            star = Some((vp, pp));
            proof {
                sv_g = vp as int;
            }
            pp = pp + 1;
            continue;
        }
        if vp < value.len() && pp < pattern.len() && (pattern[pp] == '?' || pattern[pp]
            == value[vp]) {
            vp = vp + 1;
            pp = pp + 1;
            continue;
        }
        if vp == value.len() && pp == pattern.len() {
            return true;
        }
        assert(!glob_at(v, p, vp as int, pp as int));
        match star {
            Some((sv, sp)) => {
                if sv >= value.len() {
                    assert(!star_from(v, p, sv + 1, sp as int));
                    assert(r == (glob_at(v, p, sv as int, sp + 1) || star_from(v, p, sv + 1, sp as int)));
                    return false;
                }
                assert(r == (glob_at(v, p, sv as int, sp + 1) || star_from(v, p, sv + 1, sp as int)));
                vp = sv + 1;
                pp = sp + 1;
                star = Some((vp, sp));
                proof {
                    sv_g = vp as int;
                }
            },
            None => {
                return false;
            },
        }
    }
}

// ---------------------------------------------------------------------------
// Matching whole paths, segment by segment
// ---------------------------------------------------------------------------

/// Whether path segments `ps[pi..]` match pattern segments `qs[pj..]`, where
/// a `**` segment matches any number of segments, a `*` segment any one
/// segment, a segment holding a `*` is a single-segment glob, and any other
/// segment must be equal.
pub open spec fn seg_match(ps: Seq<Seq<char>>, qs: Seq<Seq<char>>, pi: int, pj: int) -> bool
    decreases qs.len() - pj, 1int, 0int,
{
    if pi < 0 || pj < 0 || pi > ps.len() || pj > qs.len() {
        false
    } else if pi == ps.len() && pj == qs.len() {
        true
    } else if pj == qs.len() {
        false
    } else if qs[pj] == seq!['*', '*'] {
        seg_star(ps, qs, pi, pj)
    } else if pi == ps.len() {
        false
    } else if qs[pj] == seq!['*'] || qs[pj] == ps[pi] {
        seg_match(ps, qs, pi + 1, pj + 1)
    } else if !qs[pj].contains('*') {
        false
    } else {
        glob_at(ps[pi], qs[pj], 0, 0) && seg_match(ps, qs, pi + 1, pj + 1)
    }
}

/// Whether the `**` at `qs[pj]` can absorb `ps[i..k]` for some `k >= i` so
/// that the rest matches.
pub open spec fn seg_star(ps: Seq<Seq<char>>, qs: Seq<Seq<char>>, i: int, pj: int) -> bool
    decreases qs.len() - pj, 0int, ps.len() + 1 - i,
{
    if i < 0 || i > ps.len() || pj < 0 || pj >= qs.len() {
        false
    } else {
        seg_match(ps, qs, i, pj + 1) || seg_star(ps, qs, i + 1, pj)
    }
}

fn is_double_star(s: &Vec<char>) -> (b: bool)
    ensures
        b == (s@ == seq!['*', '*']),
{
    if s.len() == 2 && s[0] == '*' && s[1] == '*' {
        assert(s@ =~= seq!['*', '*']);
        true
    } else {
        assert(s@ != seq!['*', '*']) by {
            if s@.len() == 2 { assert(s@[0] != '*' || s@[1] != '*'); }
        }
        false
    }
}

fn is_single_star(s: &Vec<char>) -> (b: bool)
    ensures
        b == (s@ == seq!['*']),
{
    if s.len() == 1 && s[0] == '*' {
        assert(s@ =~= seq!['*']);
        true
    } else {
        assert(s@ != seq!['*']) by {
            if s@.len() == 1 { assert(s@[0] != '*'); }
        }
        false
    }
}

fn match_segments(ps: &Vec<Vec<char>>, qs: &Vec<Vec<char>>, pi: usize, pj: usize) -> (b: bool)
    requires
        pi <= ps@.len(),
        pj <= qs@.len(),
    ensures
        b == seg_match(char_vec_views(ps@), char_vec_views(qs@), pi as int, pj as int),
    decreases qs@.len() - pj, 1int, 0int,
{
    let ghost psv = char_vec_views(ps@);
    let ghost qsv = char_vec_views(qs@);
    if pi == ps.len() && pj == qs.len() {
        return true;
    }
    if pj == qs.len() {
        return false;
    }
    assert(qsv[pj as int] == qs@[pj as int]@);
    if is_double_star(&qs[pj]) {
        return match_star(ps, qs, pi, pj);
    }
    if pi == ps.len() {
        return false;
    }
    assert(psv[pi as int] == ps@[pi as int]@);
    if is_single_star(&qs[pj]) || chars_eq(&qs[pj], &ps[pi]) {
        return match_segments(ps, qs, pi + 1, pj + 1);
    }
    if !has_char(&qs[pj], '*') {
        return false;
    }
    if wildcard_match(&ps[pi], &qs[pj]) {
        return match_segments(ps, qs, pi + 1, pj + 1);
    }
    false
}

fn match_star(ps: &Vec<Vec<char>>, qs: &Vec<Vec<char>>, i: usize, pj: usize) -> (b: bool)
    requires
        i <= ps@.len(),
        pj < qs@.len(),
    ensures
        b == seg_star(char_vec_views(ps@), char_vec_views(qs@), i as int, pj as int),
    decreases qs@.len() - pj, 0int, ps@.len() + 1 - i,
{
    let n = qs.len();
    if match_segments(ps, qs, i, pj + 1) {
        return true;
    }
    if i == ps.len() {
        assert(!seg_star(char_vec_views(ps@), char_vec_views(qs@), i + 1, pj as int));
        return false;
    }
    match_star(ps, qs, i + 1, pj)
}

/// Whether a normalised path matches one pattern: a pattern without `*`
/// matches the path itself, a same-named entry at any level, or anything
/// beneath it; a pattern with `*` is matched segment by segment.
pub open spec fn spec_matches(path: Seq<char>, pattern: Seq<char>) -> bool {
    if !pattern.contains('*') {
        path == pattern || ends_with(path, seq!['/'] + pattern) || starts_with(
            path,
            pattern + seq!['/'],
        )
    } else {
        seg_match(split(path, '/'), split(pattern, '/'), 0, 0)
    }
}

fn matches(path: &Vec<char>, pattern: &Vec<char>) -> (b: bool)
    ensures
        b == spec_matches(path@, pattern@),
{
    if !has_char(pattern, '*') {
        let mut slash_pat: Vec<char> = Vec::new();
        slash_pat.push('/');
        let mut pat_slash: Vec<char> = pattern.clone();
        let mut k: usize = 0;
        while k < pattern.len()
            invariant
                k <= pattern@.len(),
                slash_pat@ == seq!['/'] + pattern@.take(k as int),
            decreases pattern@.len() - k,
        {
            slash_pat.push(pattern[k]);
            assert(pattern@.take(k as int).push(pattern@[k as int]) =~= pattern@.take(k + 1));
            assert(slash_pat@ =~= seq!['/'] + pattern@.take(k + 1));
            k = k + 1;
        }
        assert(pattern@.take(pattern@.len() as int) =~= pattern@);
        pat_slash.push('/');
        assert(pat_slash@ =~= pattern@ + seq!['/']);
        return chars_eq(path, pattern) || ends_with_chars(path, &slash_pat) || starts_with_chars(
            path,
            &pat_slash,
        );
    }
    let ps = split_chars(path, '/');
    let qs = split_chars(pattern, '/');
    match_segments(&ps, &qs, 0, 0)
}

// ---------------------------------------------------------------------------
// Pattern sets
// ---------------------------------------------------------------------------

/// One compiled pattern: its text, whether it is a negation (`!`), and
/// whether it applies to directories only (trailing `/`).
pub type PatternView = (Seq<char>, bool, bool);

#[derive(Clone, Debug)]
struct McIgnorePattern {
    pattern: Vec<char>,
    is_negation: bool,
    dir_only: bool,
}

/// Compiled set of `.mcignore` patterns.
///
/// Supports:
/// - `#` comments and blank lines
/// - Trailing `/` for directory-only patterns
/// - `*` (any characters except `/`) and `**` (any characters including `/`)
/// - Leading `!` for negation (applied — gitignore last-match-wins semantics)
#[derive(Clone, Debug)]
pub struct McIgnore {
    patterns: Vec<McIgnorePattern>,
}

/// The compiled form of one line of an ignore file, if it holds a pattern.
pub open spec fn parse_line(line: Seq<char>) -> Option<PatternView> {
    let t = trim_ws(line);
    if t.len() == 0 || t[0] == '#' {
        None
    } else {
        let neg = t[0] == '!';
        let cleaned = if neg { t.drop_first() } else { t };
        let dir_only = cleaned.len() > 0 && cleaned.last() == '/';
        Some((trim_end_char(cleaned, '/'), neg, dir_only))
    }
}

/// The compiled patterns of the lines of an ignore file, in order.
pub open spec fn parse_lines(lines: Seq<Seq<char>>) -> Seq<PatternView>
    decreases lines.len(),
{
    if lines.len() == 0 {
        Seq::empty()
    } else {
        let r = parse_lines(lines.drop_last());
        match parse_line(lines.last()) {
            Some(pv) => r.push(pv),
            None => r,
        }
    }
}

/// Whether one pattern decides the outcome for a path: a directory-only
/// pattern naming exactly this entry is skipped for a non-directory, and
/// otherwise the pattern must match.
pub open spec fn pattern_applies(pv: PatternView, path: Seq<char>, is_dir: bool) -> bool {
    let exact = path == pv.0 || ends_with(path, seq!['/'] + pv.0);
    !(pv.2 && exact && !is_dir) && spec_matches(path, pv.0)
}

/// Last-match-wins: the last applicable pattern decides, a negation
/// re-including the path; with no applicable pattern the path is kept.
pub open spec fn decide(pats: Seq<PatternView>, path: Seq<char>, is_dir: bool) -> bool
    decreases pats.len(),
{
    if pats.len() == 0 {
        false
    } else if pattern_applies(pats.last(), path, is_dir) {
        !pats.last().1
    } else {
        decide(pats.drop_last(), path, is_dir)
    }
}

/// `s` without any leading `./` (`str::trim_start_matches("./")`).
pub open spec fn strip_dot_slash(s: Seq<char>) -> Seq<char>
    decreases s.len(),
{
    if s.len() >= 2 && s[0] == '.' && s[1] == '/' {
        strip_dot_slash(s.skip(2))
    } else {
        s
    }
}

/// A relative path as it is matched: without leading `./` and trailing `/`.
pub open spec fn normalise(path: Seq<char>) -> Seq<char> {
    trim_end_char(strip_dot_slash(path), '/')
}

impl View for McIgnore {
    type V = Seq<PatternView>;

    closed spec fn view(&self) -> Seq<PatternView> {
        self.patterns@.map_values(
            |p: McIgnorePattern| (p.pattern@, p.is_negation, p.dir_only),
        )
    }
}

impl McIgnore {
    /// An empty ignore set — nothing is excluded.
    pub fn new() -> (m: Self)
        ensures
            m@ == Seq::<PatternView>::empty(),
    {
        let m = McIgnore { patterns: Vec::new() };
        assert(m@ =~= Seq::<PatternView>::empty());
        m
    }

    /// Compile the lines of a `.mcignore`-style file: blank lines and `#`
    /// comments are skipped; a leading `!` marks a negation and a trailing
    /// `/` a directory-only pattern.
    pub fn from_lines(lines: &Vec<String>) -> (m: Self)
        ensures
            m@ == parse_lines(lines@.map_values(|l: String| l@)),
    {
        let ghost lv = lines@.map_values(|l: String| l@);
        let mut m = McIgnore::new();
        let mut i: usize = 0;
        while i < lines.len()
            invariant
                i <= lines@.len(),
                lv == lines@.map_values(|l: String| l@),
                m@ == parse_lines(lv.take(i as int)),
            decreases lines@.len() - i,
        {
            assert(lv.take(i + 1).drop_last() =~= lv.take(i as int));
            assert(lv.take(i + 1).last() == lines@[i as int]@);
            let line = chars_of(lines[i].as_str());
            let t = trim_chars(&line);
            if t.len() == 0 || t[0] == '#' {
            } else {
                let neg = t[0] == '!';
                let mut cleaned: Vec<char> = Vec::new();
                let start: usize = if neg { 1 } else { 0 };
                let mut k: usize = start;
                while k < t.len()
                    invariant
                        start <= k <= t@.len(),
                        cleaned@ == t@.subrange(start as int, k as int),
                    decreases t@.len() - k,
                {
                    cleaned.push(t[k]);
                    assert(t@.subrange(start as int, k as int).push(t@[k as int]) =~= t@.subrange(
                        start as int,
                        k + 1,
                    ));
                    k = k + 1;
                }
                assert(neg ==> cleaned@ =~= t@.drop_first());
                assert(!neg ==> cleaned@ =~= t@);
                let dir_only = cleaned.len() > 0 && cleaned[cleaned.len() - 1] == '/';
                let pattern = trim_end_char_chars(&cleaned, '/');
                let ghost before = m@;
                let ghost pv = (pattern@, neg, dir_only);
                m.patterns.push(McIgnorePattern { pattern, is_negation: neg, dir_only });
                assert(m@ =~= before.push(pv));
            }
            i = i + 1;
        }
        assert(lv.take(lines@.len() as int) =~= lv);
        m
    }

    /// Returns `true` if the given relative path should be ignored.
    ///
    /// Follows gitignore semantics: every pattern that matches the path is
    /// evaluated in order and the **last matching pattern wins**. A positive
    /// pattern marks the path ignored; a negation (`!`) re-includes it.
    pub fn is_ignored(&self, relative_path: &str, is_dir: bool) -> (b: bool)
        ensures
            b == decide(self@, normalise(relative_path@), is_dir),
    {
        let path = chars_of(relative_path);
        let stripped = strip_leading_dot_slash(&path);
        let normalised = trim_end_char_chars(&stripped, '/');
        let ghost pats = self@;
        let mut ignored = false;
        let mut i: usize = 0;
        while i < self.patterns.len()
            invariant
                i <= self.patterns@.len(),
                pats == self@,
                pats.len() == self.patterns@.len(),
                ignored == decide(pats.take(i as int), normalised@, is_dir),
            decreases self.patterns@.len() - i,
        {
            let p = &self.patterns[i];
            assert(pats[i as int] == (p.pattern@, p.is_negation, p.dir_only));
            assert(pats.take(i + 1).drop_last() =~= pats.take(i as int));
            assert(pats.take(i + 1).last() == pats[i as int]);
            let mut skip = false;
            if p.dir_only {
                let mut slash_pat: Vec<char> = Vec::new();
                slash_pat.push('/');
                let mut k: usize = 0;
                while k < p.pattern.len()
                    invariant
                        k <= p.pattern@.len(),
                        slash_pat@ == seq!['/'] + p.pattern@.take(k as int),
                    decreases p.pattern@.len() - k,
                {
                    slash_pat.push(p.pattern[k]);
                    assert(p.pattern@.take(k as int).push(p.pattern@[k as int]) =~= p.pattern@.take(
                        k + 1,
                    ));
                    assert(slash_pat@ =~= seq!['/'] + p.pattern@.take(k + 1));
                    k = k + 1;
                }
                assert(p.pattern@.take(p.pattern@.len() as int) =~= p.pattern@);
                let is_exact = chars_eq(&normalised, &p.pattern) || ends_with_chars(
                    &normalised,
                    &slash_pat,
                );
                if is_exact && !is_dir {
                    skip = true;
                }
            }
            if !skip && matches(&normalised, &p.pattern) {
                ignored = !p.is_negation;
            }
            i = i + 1;
        }
        assert(pats.take(self.patterns@.len() as int) =~= pats);
        ignored
    }
}

impl Default for McIgnore {
    /// An empty ignore set — nothing is excluded.
    fn default() -> (m: Self)
        ensures
            m@ == Seq::<PatternView>::empty(),
    {
        McIgnore::new()
    }
}

fn strip_leading_dot_slash(s: &Vec<char>) -> (t: Vec<char>)
    ensures
        t@ == strip_dot_slash(s@),
{
    let mut i: usize = 0;
    assert(s@.skip(0) =~= s@);
    while i < s.len() && s.len() - i > 1 && s[i] == '.' && s[i + 1] == '/'
        invariant
            i <= s@.len(),
            strip_dot_slash(s@) == strip_dot_slash(s@.skip(i as int)),
        decreases s@.len() - i,
    {
        assert(s@.skip(i as int).skip(2) =~= s@.skip(i + 2));
        i = i + 2;
    }
    let mut t: Vec<char> = Vec::new();
    let mut k: usize = i;
    while k < s.len()
        invariant
            i <= k <= s@.len(),
            t@ == s@.subrange(i as int, k as int),
        decreases s@.len() - k,
    {
        t.push(s[k]);
        assert(s@.subrange(i as int, k as int).push(s@[k as int]) =~= s@.subrange(i as int, k + 1));
        k = k + 1;
    }
    assert(t@ =~= s@.skip(i as int));
    t
}

/// With no patterns, nothing is ignored.
pub proof fn lemma_no_patterns_ignore_nothing(path: Seq<char>, is_dir: bool)
    ensures
        !decide(Seq::empty(), path, is_dir),
{
}

/// The last pattern that applies to a path decides it: a later pattern
/// ignores the path, or re-includes it when negated, whatever came before.
pub proof fn lemma_last_match_wins(
    pats: Seq<PatternView>,
    later: Seq<PatternView>,
    pv: PatternView,
    path: Seq<char>,
    is_dir: bool,
)
    requires
        pattern_applies(pv, path, is_dir),
        forall|k: int| 0 <= k < later.len() ==> !pattern_applies(#[trigger] later[k], path, is_dir),
    ensures
        decide(pats.push(pv) + later, path, is_dir) == !pv.1,
    decreases later.len(),
{
    if later.len() == 0 {
        assert(pats.push(pv) + later =~= pats.push(pv));
    } else {
        let shorter = later.drop_last();
        assert forall|k: int| 0 <= k < shorter.len() implies !pattern_applies(
            #[trigger] shorter[k],
            path,
            is_dir,
        ) by {
            assert(shorter[k] == later[k]);
        }
        lemma_last_match_wins(pats, shorter, pv, path, is_dir);
        let all = pats.push(pv) + later;
        assert(all.drop_last() =~= pats.push(pv) + shorter);
        assert(all.last() == later.last());
        assert(!pattern_applies(later[later.len() - 1], path, is_dir));
    }
}

/// Blank lines and comment lines add no pattern.
pub proof fn lemma_comments_add_nothing(lines: Seq<Seq<char>>, line: Seq<char>)
    requires
        trim_ws(line).len() == 0 || trim_ws(line)[0] == '#',
    ensures
        parse_lines(lines.push(line)) == parse_lines(lines),
{
    assert(lines.push(line).drop_last() =~= lines);
}

/// A pattern without `*` excludes a same-named entry at any depth: when
/// the last pattern is a plain one (not negated, not directory-only, no
/// `*`), every path that ends in `/` and that name is ignored.
pub proof fn lemma_plain_pattern_at_any_depth(
    pats: Seq<PatternView>,
    prefix: Seq<char>,
    is_dir: bool,
)
    requires
        pats.len() > 0,
        !pats.last().0.contains('*'),
        !pats.last().1,
        !pats.last().2,
    ensures
        decide(pats, prefix + seq!['/'] + pats.last().0, is_dir),
{
    let pv = pats.last();
    let path = prefix + seq!['/'] + pv.0;
    let tail = seq!['/'] + pv.0;
    assert(path.subrange(path.len() - tail.len(), path.len() as int) =~= tail);
    assert(ends_with(path, tail));
    assert(spec_matches(path, pv.0));
    assert(pattern_applies(pv, path, is_dir));
}

/// The same for an ignore file: a last line that is a plain name (no
/// surrounding blanks, no `#`, `!`, trailing `/` or `*`) ignores every
/// path that ends in `/` and that name, whatever the lines before it.
pub proof fn lemma_plain_line_at_any_depth(
    lines: Seq<Seq<char>>,
    name: Seq<char>,
    prefix: Seq<char>,
    is_dir: bool,
)
    requires
        name.len() > 0,
        trim_ws(name) == name,
        name[0] != '#',
        name[0] != '!',
        name.last() != '/',
        !name.contains('*'),
    ensures
        decide(parse_lines(lines.push(name)), prefix + seq!['/'] + name, is_dir),
{
    assert(lines.push(name).drop_last() =~= lines);
    assert(lines.push(name).last() == name);
    assert(trim_end_char(name, '/') == name);
    let pats = parse_lines(lines.push(name));
    assert(pats == parse_lines(lines).push((name, false, false)));
    lemma_plain_pattern_at_any_depth(pats, prefix, is_dir);
}

/// A `**` pattern segment can stand for no segment at all: wherever the
/// rest of the pattern matches, the pattern with the `**` matches too.
pub proof fn lemma_double_star_matches_none(
    ps: Seq<Seq<char>>,
    qs: Seq<Seq<char>>,
    pi: int,
    pj: int,
)
    requires
        0 <= pj < qs.len(),
        qs[pj] == seq!['*', '*'],
        seg_match(ps, qs, pi, pj + 1),
    ensures
        seg_match(ps, qs, pi, pj),
{
    assert(0 <= pi <= ps.len());
    assert(seg_star(ps, qs, pi, pj));
}

proof fn lemma_shift_match(ps: Seq<Seq<char>>, pre: Seq<Seq<char>>, rs: Seq<Seq<char>>, pi: int, pj: int)
    requires
        0 <= pj,
    ensures
        seg_match(ps, pre + rs, pi, pre.len() + pj) == seg_match(ps, rs, pi, pj),
    decreases rs.len() - pj, 1int, 0int,
{
    let qs = pre + rs;
    if 0 <= pi <= ps.len() && pj < rs.len() {
        assert(qs[pre.len() + pj] == rs[pj]);
        if rs[pj] == seq!['*', '*'] {
            lemma_shift_star(ps, pre, rs, pi, pj);
        } else if pi < ps.len() {
            lemma_shift_match(ps, pre, rs, pi + 1, pj + 1);
        }
    }
}

proof fn lemma_shift_star(ps: Seq<Seq<char>>, pre: Seq<Seq<char>>, rs: Seq<Seq<char>>, i: int, pj: int)
    requires
        0 <= pj,
    ensures
        seg_star(ps, pre + rs, i, pre.len() + pj) == seg_star(ps, rs, i, pj),
    decreases rs.len() - pj, 0int, ps.len() + 1 - i,
{
    if 0 <= i <= ps.len() && pj < rs.len() {
        lemma_shift_match(ps, pre, rs, i, pj + 1);
        lemma_shift_star(ps, pre, rs, i + 1, pj);
    }
}

/// A leading `**/` matches zero or more directories: a path that a
/// pattern with `*` matches is also matched by `**/` followed by that
/// pattern (so `**/*.log` ignores a top-level `app.log`).
pub proof fn lemma_double_star_prefix(path: Seq<char>, rest: Seq<char>)
    requires
        rest.contains('*'),
        spec_matches(path, rest),
    ensures
        spec_matches(path, seq!['*', '*', '/'] + rest),
{
    let ds = seq!['*', '*'];
    let pat = seq!['*', '*', '/'] + rest;
    assert(pat[0] == '*');
    assert(pat.contains('*'));
    assert(pat =~= ds + seq!['/'] + rest);
    crate::text::lemma_split_concat(ds, rest, '/');
    assert(!ds.contains('/')) by {
        if ds.contains('/') {
            let k = choose|k: int| 0 <= k < ds.len() && ds[k] == '/';
            assert(ds[k] == '*');
        }
    }
    crate::text::lemma_split_extend(Seq::<char>::empty(), ds, '/');
    assert(Seq::<char>::empty() + ds =~= ds);
    assert(split(Seq::<char>::empty(), '/') =~= seq![Seq::<char>::empty()]);
    assert(split(ds, '/') =~= seq![ds]);
    let ps = split(path, '/');
    let rs = split(rest, '/');
    let qs = seq![ds] + rs;
    assert(split(pat, '/') == qs);
    lemma_shift_match(ps, seq![ds], rs, 0, 0);
    assert(qs[0] == ds);
    lemma_double_star_matches_none(ps, qs, 0, 0);
}

} // verus!
