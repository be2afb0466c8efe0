//! Line-oriented record parser for a decompressed package index.
//!
//! The index is newline-delimited `Field: value` text. A new record starts
//! at every line bearing the `Package:` tag; `Version:`, `Architecture:`
//! and `Description:` lines fill the current record, every other line is
//! ignored. The parser never fails as a whole: a malformed field is clamped
//! to its default and the record is still emitted.

use vstd::prelude::*;

use crate::package::arch_of_token;
use crate::package::DebianArchitecture;
use crate::package::DebianPackage;
use crate::package::PackageModel;

verus! {

/// Whitespace that a field value is trimmed of: ASCII space, tab,
/// carriage return and newline.
pub open spec fn is_wsp(c: char) -> bool {
    c == ' ' || c == '\t' || c == '\r' || c == '\n'
}

pub open spec fn trim_start_spec(s: Seq<char>) -> Seq<char>
    decreases s.len(),
{
    if s.len() > 0 && is_wsp(s[0]) {
        trim_start_spec(s.drop_first())
    } else {
        s
    }
}

pub open spec fn trim_end_spec(s: Seq<char>) -> Seq<char>
    decreases s.len(),
{
    if s.len() > 0 && is_wsp(s.last()) {
        trim_end_spec(s.drop_last())
    } else {
        s
    }
}

/// A field value with leading and trailing whitespace removed.
pub open spec fn trim_spec(s: Seq<char>) -> Seq<char> {
    trim_end_spec(trim_start_spec(s))
}

pub open spec fn package_tag() -> Seq<char> {
    seq!['P', 'a', 'c', 'k', 'a', 'g', 'e', ':']
}

pub open spec fn version_tag() -> Seq<char> {
    seq!['V', 'e', 'r', 's', 'i', 'o', 'n', ':']
}

pub open spec fn architecture_tag() -> Seq<char> {
    seq!['A', 'r', 'c', 'h', 'i', 't', 'e', 'c', 't', 'u', 'r', 'e', ':']
}

pub open spec fn description_tag() -> Seq<char> {
    seq!['D', 'e', 's', 'c', 'r', 'i', 'p', 't', 'i', 'o', 'n', ':']
}

/// Whether `line` begins with the exact field tag `tag`.
pub open spec fn has_tag(line: Seq<char>, tag: Seq<char>) -> bool {
    line.len() >= tag.len() && line.take(tag.len() as int) == tag
}

/// The trimmed value of a line known to begin with `tag`.
pub open spec fn field_value(line: Seq<char>, tag: Seq<char>) -> Seq<char> {
    trim_spec(line.skip(tag.len() as int))
}

/// The architecture named by a token, clamped to the default when the
/// token lies outside the closed set.
pub open spec fn arch_or_default(t: Seq<char>) -> DebianArchitecture {
    match arch_of_token(t) {
        Some(a) => a,
        None => DebianArchitecture::All,
    }
}

/// The scanner's single piece of mutable state: the records emitted so far
/// and the record currently being filled, if a `Package:` line has opened one.
#[verifier::ext_equal]
pub struct ParseState {
    pub emitted: Seq<PackageModel>,
    pub current: Option<PackageModel>,
}

pub open spec fn initial_state() -> ParseState {
    ParseState { emitted: Seq::empty(), current: None }
}

pub open spec fn state_model(emitted: Seq<PackageModel>, current: Option<PackageModel>) -> ParseState {
    ParseState { emitted, current }
}

/// Finalizes the state at a record boundary: an open record is appended.
pub open spec fn flush(st: ParseState) -> Seq<PackageModel> {
    match st.current {
        Some(c) => st.emitted.push(c),
        None => st.emitted,
    }
}

/// A record freshly opened by a `Package:` line.
pub open spec fn fresh_record(name: Seq<char>) -> PackageModel {
    PackageModel {
        name,
        version: Seq::empty(),
        architecture: DebianArchitecture::All,
        description: None,
    }
}

/// One step of the line classification machine.
pub open spec fn step_line(st: ParseState, line: Seq<char>) -> ParseState {
    if has_tag(line, package_tag()) {
        ParseState {
            emitted: flush(st),
            current: Some(fresh_record(field_value(line, package_tag()))),
        }
    } else if has_tag(line, version_tag()) {
        match st.current {
            Some(c) => ParseState {
                emitted: st.emitted,
                current: Some(
                    PackageModel {
                        name: c.name,
                        version: field_value(line, version_tag()),
                        architecture: c.architecture,
                        description: c.description,
                    },
                ),
            },
            None => st,
        }
    } else if has_tag(line, architecture_tag()) {
        match st.current {
            Some(c) => ParseState {
                emitted: st.emitted,
                current: Some(
                    PackageModel {
                        name: c.name,
                        version: c.version,
                        architecture: arch_or_default(field_value(line, architecture_tag())),
                        description: c.description,
                    },
                ),
            },
            None => st,
        }
    } else if has_tag(line, description_tag()) {
        match st.current {
            Some(c) => ParseState {
                emitted: st.emitted,
                current: Some(
                    PackageModel {
                        name: c.name,
                        version: c.version,
                        architecture: c.architecture,
                        description: Some(field_value(line, description_tag())),
                    },
                ),
            },
            None => st,
        }
    } else {
        st
    }
}

/// Index of the first newline in `s`, or `s.len()` if there is none.
pub open spec fn first_nl(s: Seq<char>) -> int
    decreases s.len(),
{
    if s.len() == 0 {
        0
    } else if s[0] == '\n' {
        0
    } else {
        1 + first_nl(s.drop_first())
    }
}

pub proof fn lemma_first_nl_bounds(s: Seq<char>)
    ensures
        0 <= first_nl(s) <= s.len(),
        first_nl(s) < s.len() ==> s[first_nl(s)] == '\n',
        forall|i: int| 0 <= i < first_nl(s) ==> s[i] != '\n',
    decreases s.len(),
{
    if s.len() == 0 {
    } else if s[0] == '\n' {
    } else {
        lemma_first_nl_bounds(s.drop_first());
        assert forall|i: int| 0 <= i < first_nl(s) implies s[i] != '\n' by {
            if i > 0 {
                assert(s.drop_first()[i - 1] != '\n');
            }
        }
    }
}

/// The first newline is at `p` exactly when no newline precedes `p` and
/// `p` is a newline or the end of the text.
pub proof fn lemma_first_nl_at(s: Seq<char>, p: int)
    requires
        0 <= p <= s.len(),
        forall|i: int| 0 <= i < p ==> s[i] != '\n',
        p < s.len() ==> s[p] == '\n',
    ensures
        first_nl(s) == p,
    decreases p,
{
    if p == 0 {
    } else {
        assert(s[0] != '\n');
        lemma_first_nl_at(s.drop_first(), p - 1);
    }
}

/// The text cut into lines at every newline. A trailing newline yields a
/// final empty line, and empty text yields one empty line; both are inert
/// under the scanner.
pub open spec fn line_split(s: Seq<char>) -> Seq<Seq<char>>
    decreases s.len(),
        via line_split_dec
{
    let p = first_nl(s);
    if p == s.len() {
        seq![s]
    } else {
        seq![s.take(p)] + line_split(s.skip(p + 1))
    }
}

#[via_fn]
proof fn line_split_dec(s: Seq<char>) {
    lemma_first_nl_bounds(s);
}

/// The scanner folded over a sequence of lines.
pub open spec fn run_lines(st: ParseState, lines: Seq<Seq<char>>) -> ParseState
    decreases lines.len(),
{
    if lines.len() == 0 {
        st
    } else {
        run_lines(step_line(st, lines.first()), lines.drop_first())
    }
}

/// The records parsed out of a decompressed index text, in source order.
pub open spec fn spec_parse(text: Seq<char>) -> Seq<PackageModel> {
    flush(run_lines(initial_state(), line_split(text)))
}

/// Consuming one line advances the fold: if `[start, i)` holds no newline
/// and `i` is a newline (or the end), the remaining text parses as that
/// line followed by the rest.
proof fn lemma_consume_line(st: ParseState, s: Seq<char>, start: int, i: int)
    requires
        0 <= start <= i <= s.len(),
        forall|k: int| start <= k < i ==> s[k] != '\n',
        i < s.len() ==> s[i] == '\n',
    ensures
        i < s.len() ==> run_lines(st, line_split(s.subrange(start, s.len() as int)))
            == run_lines(step_line(st, s.subrange(start, i)), line_split(s.subrange(i + 1, s.len() as int))),
        i == s.len() ==> run_lines(st, line_split(s.subrange(start, s.len() as int)))
            == step_line(st, s.subrange(start, i)),
{
    let n = s.len() as int;
    let sub = s.subrange(start, n);
    assert forall|k: int| 0 <= k < i - start implies sub[k] != '\n' by {
        assert(s[start + k] != '\n');
    }
    lemma_first_nl_at(sub, i - start);
    if i < n {
        assert(sub.take(i - start) =~= s.subrange(start, i));
        assert(sub.skip(i - start + 1) =~= s.subrange(i + 1, n));
        let lines = line_split(sub);
        let rest = line_split(s.subrange(i + 1, n));
        assert(lines == seq![s.subrange(start, i)] + rest);
        assert(lines.first() == s.subrange(start, i));
        assert(lines.drop_first() =~= rest);
    } else {
        assert(sub == s.subrange(start, i));
        let lines = line_split(sub);
        assert(lines == seq![sub]);
        assert(lines.first() == sub);
        assert(lines.drop_first() =~= Seq::<Seq<char>>::empty());
        assert(run_lines(step_line(st, sub), lines.drop_first()) == step_line(st, sub));
    }
}

/// Number of lines bearing the `Package:` tag.
pub open spec fn count_markers(lines: Seq<Seq<char>>) -> nat
    decreases lines.len(),
{
    if lines.len() == 0 {
        0
    } else {
        (if has_tag(lines.first(), package_tag()) {
            1nat
        } else {
            0nat
        }) + count_markers(lines.drop_first())
    }
}

/// Records the state accounts for: emitted ones plus an open one.
pub open spec fn live_records(st: ParseState) -> nat {
    st.emitted.len() + (if st.current is Some {
        1nat
    } else {
        0nat
    })
}

proof fn lemma_run_lines_count(st: ParseState, lines: Seq<Seq<char>>)
    ensures
        live_records(run_lines(st, lines)) == live_records(st) + count_markers(lines),
    decreases lines.len(),
{
    if lines.len() == 0 {
    } else {
        let l = lines.first();
        assert(live_records(step_line(st, l)) == live_records(st) + (if has_tag(l, package_tag()) {
            1nat
        } else {
            0nat
        }));
        lemma_run_lines_count(step_line(st, l), lines.drop_first());
    }
}

/// Law: the parse emits exactly one record per `Package:` marker line —
/// no marker is lost and no record is invented, whatever the other lines
/// hold. In particular a text without markers parses to no records.
pub proof fn lemma_parse_count(text: Seq<char>)
    ensures
        spec_parse(text).len() == count_markers(line_split(text)),
{
    lemma_run_lines_count(initial_state(), line_split(text));
}

/// The names of a record sequence, in order.
pub open spec fn names_of(rs: Seq<PackageModel>) -> Seq<Seq<char>> {
    rs.map_values(|r: PackageModel| r.name)
}

/// The values of the `Package:` marker lines, in source order.
pub open spec fn marker_names(lines: Seq<Seq<char>>) -> Seq<Seq<char>>
    decreases lines.len(),
{
    if lines.len() == 0 {
        Seq::empty()
    } else if has_tag(lines.first(), package_tag()) {
        seq![field_value(lines.first(), package_tag())] + marker_names(lines.drop_first())
    } else {
        marker_names(lines.drop_first())
    }
}

proof fn lemma_run_lines_names(st: ParseState, lines: Seq<Seq<char>>)
    ensures
        names_of(flush(run_lines(st, lines))) == names_of(flush(st)) + marker_names(lines),
    decreases lines.len(),
{
    if lines.len() == 0 {
        assert(names_of(flush(st)) + marker_names(lines) =~= names_of(flush(st)));
    } else {
        let l = lines.first();
        let st1 = step_line(st, l);
        lemma_run_lines_names(st1, lines.drop_first());
        if has_tag(l, package_tag()) {
            assert(names_of(flush(st1)) =~= names_of(flush(st)) + seq![field_value(l, package_tag())]);
            assert((names_of(flush(st)) + seq![field_value(l, package_tag())]) + marker_names(
                lines.drop_first(),
            ) =~= names_of(flush(st)) + marker_names(lines));
        } else {
            assert(names_of(flush(st1)) =~= names_of(flush(st)));
            assert(names_of(flush(st)) + marker_names(lines.drop_first()) == names_of(flush(st))
                + marker_names(lines));
        }
    }
}

/// Law: records come out in source order — the i-th record carries the
/// name written on the i-th `Package:` marker line.
pub proof fn lemma_parse_order(text: Seq<char>)
    ensures
        names_of(spec_parse(text)) == marker_names(line_split(text)),
{
    lemma_run_lines_names(initial_state(), line_split(text));
    assert(names_of(flush(initial_state())) + marker_names(line_split(text)) =~= marker_names(
        line_split(text),
    ));
}

/// Law: an `Architecture:` line whose token lies outside the closed set is
/// a per-record failure only — the open record stays, falls back to the
/// default architecture, keeps its name, and nothing emitted is touched.
pub proof fn lemma_unknown_architecture_defaults(st: ParseState, line: Seq<char>)
    requires
        has_tag(line, architecture_tag()),
        arch_of_token(field_value(line, architecture_tag())) is None,
        st.current is Some,
    ensures
        step_line(st, line).emitted == st.emitted,
        step_line(st, line).current is Some,
        step_line(st, line).current->0.architecture == DebianArchitecture::All,
        step_line(st, line).current->0.name == st.current->0.name,
{
    assert(line.take(13)[0] == architecture_tag()[0]);
    assert(!has_tag(line, package_tag())) by {
        if has_tag(line, package_tag()) {
            assert(line.take(8)[0] == package_tag()[0]);
        }
    }
    assert(!has_tag(line, version_tag())) by {
        if has_tag(line, version_tag()) {
            assert(line.take(8)[0] == version_tag()[0]);
        }
    }
}

/// The characters of `s`, in order.
fn chars_vec(s: &str) -> (r: Vec<char>)
    ensures
        r@ == s@,
{
    let n: usize = s.unicode_len();
    let mut r: Vec<char> = Vec::new();
    let mut i: usize = 0;
    proof {
        assert(r@ =~= s@.take(0));
    }
    while i < n
        invariant
            i <= n,
            n == s@.len(),
            r@ == s@.take(i as int),
        decreases n - i,
    {
        r.push(s.get_char(i));
        proof {
            assert(s@.take(i as int).push(s@[i as int]) =~= s@.take(i + 1 as int));
        }
        i = i + 1;
    }
    proof {
        assert(s@.take(n as int) =~= s@);
    }
    r
}

/// Whether the line `cs[start..end)` begins with `tag`.
fn tag_at(cs: &Vec<char>, start: usize, end: usize, tag: &Vec<char>) -> (r: bool)
    requires
        start <= end <= cs@.len(),
    ensures
        r == has_tag(cs@.subrange(start as int, end as int), tag@),
{
    let ghost line = cs@.subrange(start as int, end as int);
    if end - start < tag.len() {
        return false;
    }
    let mut j: usize = 0;
    while j < tag.len()
        invariant
            start <= end <= cs@.len(),
            tag@.len() <= end - start,
            j <= tag@.len(),
            line == cs@.subrange(start as int, end as int),
            forall|k: int| 0 <= k < j ==> line[k] == tag@[k],
        decreases tag@.len() - j,
    {
        if cs[start + j] != tag[j] {
            proof {
                if has_tag(line, tag@) {
                    assert(line.take(tag@.len() as int)[j as int] == tag@[j as int]);
                }
            }
            return false;
        }
        j = j + 1;
    }
    proof {
        assert(line.take(tag@.len() as int) =~= tag@);
    }
    true
}

/// The trimmed value in `cs[from..end)`, as an owned string.
fn extract_value(text: &str, cs: &Vec<char>, from: usize, end: usize) -> (r: String)
    requires
        cs@ == text@,
        from <= end <= text@.len(),
    ensures
        r@ == trim_spec(text@.subrange(from as int, end as int)),
{
    let ghost s = text@;
    let mut a: usize = from;
    while a < end && (cs[a] == ' ' || cs[a] == '\t' || cs[a] == '\r' || cs[a] == '\n')
        invariant
            from <= a <= end <= s.len(),
            cs@ == s,
            trim_start_spec(s.subrange(from as int, end as int))
                == trim_start_spec(s.subrange(a as int, end as int)),
        decreases end - a,
    {
        proof {
            let cur = s.subrange(a as int, end as int);
            assert(cur.drop_first() =~= s.subrange(a + 1 as int, end as int));
        }
        a = a + 1;
    }
    proof {
        let cur = s.subrange(a as int, end as int);
        if a < end {
            assert(!is_wsp(cur[0]));
        }
        assert(trim_start_spec(cur) == cur);
    }
    let mut b: usize = end;
    while b > a && (cs[b - 1] == ' ' || cs[b - 1] == '\t' || cs[b - 1] == '\r' || cs[b - 1] == '\n')
        invariant
            from <= a <= b <= end <= s.len(),
            cs@ == s,
            trim_start_spec(s.subrange(from as int, end as int)) == s.subrange(a as int, end as int),
            trim_end_spec(s.subrange(a as int, end as int))
                == trim_end_spec(s.subrange(a as int, b as int)),
        decreases b,
    {
        proof {
            let cur = s.subrange(a as int, b as int);
            assert(cur.last() == s[b - 1]);
            assert(cur.drop_last() =~= s.subrange(a as int, b - 1));
        }
        b = b - 1;
    }
    proof {
        let cur = s.subrange(a as int, b as int);
        if b > a {
            assert(!is_wsp(cur.last()));
        }
        assert(trim_end_spec(cur) == cur);
    }
    let piece = text.substring_char(a, b);
    String::from_str(piece)
}

pub open spec fn opt_model(c: Option<DebianPackage>) -> Option<PackageModel> {
    match c {
        Some(p) => Some(p@),
        None => None,
    }
}

/// Classifies one line and applies it: flushes and opens on `Package:`,
/// fills a field on the other tags, ignores anything else.
fn process_line(
    text: &str,
    cs: &Vec<char>,
    start: usize,
    end: usize,
    out: &mut Vec<DebianPackage>,
    current: Option<DebianPackage>,
) -> (r: Option<DebianPackage>)
    requires
        cs@ == text@,
        start <= end <= text@.len(),
    ensures
        state_model(final(out).deep_view(), opt_model(r)) == step_line(
            state_model(old(out).deep_view(), opt_model(current)),
            text@.subrange(start as int, end as int),
        ),
{
    let ghost line = text@.subrange(start as int, end as int);
    let ghost st0 = state_model(old(out).deep_view(), opt_model(current));
    let mut tag: Vec<char> = Vec::new();
    tag.push('P');
    tag.push('a');
    tag.push('c');
    tag.push('k');
    tag.push('a');
    tag.push('g');
    tag.push('e');
    tag.push(':');
    proof {
        assert(tag@ =~= package_tag());
    }
    if tag_at(cs, start, end, &tag) {
        if let Some(p) = current {
            out.push(p);
            proof {
                assert(out.deep_view() =~= old(out).deep_view().push(p@));
            }
        }
        let name = extract_value(text, cs, start + 8, end);
        proof {
            assert(line.skip(8) =~= text@.subrange(start + 8 as int, end as int));
        }
        let r = Some(
            DebianPackage {
                package: name,
                architecture: DebianArchitecture::All,
                version: String::new(),
                description: None,
            },
        );
        proof {
            assert(state_model(out.deep_view(), opt_model(r)) =~= step_line(st0, line));
        }
        return r;
    }
    let mut tag: Vec<char> = Vec::new();
    tag.push('V');
    tag.push('e');
    tag.push('r');
    tag.push('s');
    tag.push('i');
    tag.push('o');
    tag.push('n');
    tag.push(':');
    proof {
        assert(tag@ =~= version_tag());
    }
    if tag_at(cs, start, end, &tag) {
        let r = match current {
            Some(mut p) => {
                p.version = extract_value(text, cs, start + 8, end);
                proof {
                    assert(line.skip(8) =~= text@.subrange(start + 8 as int, end as int));
                }
                Some(p)
            },
            None => None,
        };
        proof {
            assert(state_model(out.deep_view(), opt_model(r)) =~= step_line(st0, line));
        }
        return r;
    }
    let mut tag: Vec<char> = Vec::new();
    tag.push('A');
    tag.push('r');
    tag.push('c');
    tag.push('h');
    tag.push('i');
    tag.push('t');
    tag.push('e');
    tag.push('c');
    tag.push('t');
    tag.push('u');
    tag.push('r');
    tag.push('e');
    tag.push(':');
    proof {
        assert(tag@ =~= architecture_tag());
    }
    if tag_at(cs, start, end, &tag) {
        let r = match current {
            Some(mut p) => {
                let token = extract_value(text, cs, start + 13, end);
                proof {
                    assert(line.skip(13) =~= text@.subrange(start + 13 as int, end as int));
                }
                p.architecture = match DebianArchitecture::from_str(token.as_str()) {
                    Some(a) => a,
                    None => DebianArchitecture::All,
                };
                Some(p)
            },
            None => None,
        };
        proof {
            assert(state_model(out.deep_view(), opt_model(r)) =~= step_line(st0, line));
        }
        return r;
    }
    let mut tag: Vec<char> = Vec::new();
    tag.push('D');
    tag.push('e');
    tag.push('s');
    tag.push('c');
    tag.push('r');
    tag.push('i');
    tag.push('p');
    tag.push('t');
    tag.push('i');
    tag.push('o');
    tag.push('n');
    tag.push(':');
    proof {
        assert(tag@ =~= description_tag());
    }
    if tag_at(cs, start, end, &tag) {
        let r = match current {
            Some(mut p) => {
                p.description = Some(extract_value(text, cs, start + 12, end));
                proof {
                    assert(line.skip(12) =~= text@.subrange(start + 12 as int, end as int));
                }
                Some(p)
            },
            None => None,
        };
        proof {
            assert(state_model(out.deep_view(), opt_model(r)) =~= step_line(st0, line));
        }
        return r;
    }
    proof {
        assert(state_model(out.deep_view(), opt_model(current)) =~= step_line(st0, line));
    }
    current
}

/// Parses one decompressed index text into its package records, in source
/// order. Total: no input makes it fail or drop a record; a record opened
/// by a `Package:` line is emitted at the next boundary even if fields are
/// missing or malformed.
pub fn parse_packages(index_data: &str) -> (r: Vec<DebianPackage>)
    ensures
        r.deep_view() == spec_parse(index_data@),
{
    let ghost s = index_data@;
    let cs = chars_vec(index_data);
    let n = cs.len();
    let mut out: Vec<DebianPackage> = Vec::new();
    let mut current: Option<DebianPackage> = None;
    let mut start: usize = 0;
    let mut i: usize = 0;
    proof {
        assert(s.subrange(0, n as int) =~= s);
        assert(state_model(out.deep_view(), opt_model(current)) =~= initial_state());
    }
    while i < n
        invariant
            start <= i <= n,
            n == s.len(),
            cs@ == s,
            s == index_data@,
            forall|k: int| start <= k < i ==> s[k] != '\n',
            run_lines(
                state_model(out.deep_view(), opt_model(current)),
                line_split(s.subrange(start as int, n as int)),
            ) == run_lines(initial_state(), line_split(s)),
        decreases n - i,
    {
        if cs[i] == '\n' {
            proof {
                lemma_consume_line(
                    state_model(out.deep_view(), opt_model(current)),
                    s,
                    start as int,
                    i as int,
                );
            }
            current = process_line(index_data, &cs, start, i, &mut out, current);
            start = i + 1;
        }
        i = i + 1;
    }
    proof {
        lemma_consume_line(
            state_model(out.deep_view(), opt_model(current)),
            s,
            start as int,
            n as int,
        );
    }
    let ghost final_st = run_lines(initial_state(), line_split(s));
    current = process_line(index_data, &cs, start, n, &mut out, current);
    proof {
        assert(state_model(out.deep_view(), opt_model(current)) == final_st);
    }
    match current {
        Some(p) => {
            let ghost prev = out.deep_view();
            out.push(p);
            proof {
                assert(out.deep_view() =~= prev.push(p@));
            }
        },
        None => {},
    }
    out
}

} // verus!
