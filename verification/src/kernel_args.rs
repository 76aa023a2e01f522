use vstd::prelude::*;
use vstd::string::StrSliceExecFns;
use vstd::string::StringExecFns;

use crate::error::AnalyzeError;
use crate::text::{ascii_string, is_dec_digit, digit_val, starts_with_spec, str_eq, str_starts_with};

verus! {

/// One kernel argument, with its layout offset into the kernarg segment.
#[derive(Debug, Clone, PartialEq)]
pub struct KernelArg {
    pub name: String,
    pub size: u32,
    pub offset: u32,
    pub typename: Option<String>,
    pub is_const: bool,
}

pub ghost struct KernelArgView {
    pub name: Seq<char>,
    pub size: u32,
    pub offset: u32,
    pub typename: Option<Seq<char>>,
    pub is_const: bool,
}

impl View for KernelArg {
    type V = KernelArgView;

    open spec fn view(&self) -> KernelArgView {
        KernelArgView {
            name: self.name@,
            size: self.size,
            offset: self.offset,
            typename: match self.typename {
                Some(t) => Some(t@),
                None => None,
            },
            is_const: self.is_const,
        }
    }
}

/// An argument as parsed from the metadata text, before layout: the
/// alignment is kept, the offset not yet assigned.
pub ghost struct RawArgView {
    pub name: Seq<char>,
    pub size: u32,
    pub align: u32,
    pub typename: Option<Seq<char>>,
    pub is_const: bool,
}

pub struct RawArg {
    pub name: String,
    pub size: u32,
    pub align: u32,
    pub typename: Option<String>,
    pub is_const: bool,
}

impl View for RawArg {
    type V = RawArgView;

    open spec fn view(&self) -> RawArgView {
        RawArgView {
            name: self.name@,
            size: self.size,
            align: self.align,
            typename: match self.typename {
                Some(t) => Some(t@),
                None => None,
            },
            is_const: self.is_const,
        }
    }
}

/// The views of a list of strings.
pub open spec fn svs(v: Seq<String>) -> Seq<Seq<char>> {
    v.map_values(|x: String| x@)
}

// ------------------------------------------------------------------
// Locating the metadata text inside the raw `.note` bytes.
// ------------------------------------------------------------------

/// The suffix of `s` that begins at its first newline byte.
pub open spec fn after_newline(s: Seq<u8>) -> Seq<u8>
    decreases s.len(),
{
    if s.len() == 0 {
        s
    } else if s.first() == 10u8 {
        s
    } else {
        after_newline(s.drop_first())
    }
}

/// The bytes that survive into the metadata text: NUL bytes and bytes
/// outside the ASCII range are discarded.
pub open spec fn keep_note_byte(b: u8) -> bool {
    b != 0 && b < 128
}

pub open spec fn filter_note(s: Seq<u8>) -> Seq<u8>
    decreases s.len(),
{
    if s.len() == 0 {
        Seq::empty()
    } else if keep_note_byte(s.last()) {
        filter_note(s.drop_last()).push(s.last())
    } else {
        filter_note(s.drop_last())
    }
}

/// The metadata text of a `.note` section: everything from the first
/// newline on, with NUL and non-ASCII bytes removed, read as characters.
pub open spec fn note_text(s: Seq<u8>) -> Seq<char> {
    filter_note(after_newline(s)).map_values(|b: u8| b as char)
}

proof fn lemma_after_newline_at(s: Seq<u8>, i: int)
    requires
        0 <= i <= s.len(),
        forall|j: int| 0 <= j < i ==> s[j] != 10u8,
        i == s.len() || s[i] == 10u8,
    ensures
        after_newline(s) == s.subrange(i, s.len() as int),
    decreases i,
{
    if i == 0 {
        assert(s.subrange(0, s.len() as int) =~= s);
    } else {
        lemma_after_newline_at(s.drop_first(), i - 1);
        assert(s.drop_first().subrange(i - 1, s.drop_first().len() as int) =~= s.subrange(
            i,
            s.len() as int,
        ));
    }
}

proof fn lemma_filter_note_all_ascii(s: Seq<u8>)
    ensures
        forall|j: int| 0 <= j < filter_note(s).len() ==> filter_note(s)[j] < 128,
    decreases s.len(),
{
    if s.len() > 0 {
        lemma_filter_note_all_ascii(s.drop_last());
        if keep_note_byte(s.last()) {
            assert forall|j: int| 0 <= j < filter_note(s).len() implies filter_note(s)[j]
                < 128 by {
                if j < filter_note(s.drop_last()).len() {
                    assert(filter_note(s)[j] == filter_note(s.drop_last())[j]);
                } else {
                    assert(filter_note(s)[j] == s.last());
                }
            }
        }
    }
}

/// The metadata text of the `.note` section as a string.
fn note_text_exec(section_note: &Vec<u8>) -> (r: String)
    ensures
        r@ == note_text(section_note@),
{
    let n = section_note.len();
    let mut i: usize = 0;
    while i < n && section_note[i] != 10u8
        invariant
            0 <= i <= n,
            n == section_note@.len(),
            forall|j: int| 0 <= j < i ==> section_note@[j] != 10u8,
        decreases n - i,
    {
        i += 1;
    }
    proof {
        lemma_after_newline_at(section_note@, i as int);
    }

    let ghost tail = section_note@.subrange(i as int, n as int);
    let mut out: Vec<u8> = Vec::new();
    let mut j: usize = i;
    while j < n
        invariant
            i <= j <= n,
            n == section_note@.len(),
            tail == section_note@.subrange(i as int, n as int),
            out@ == filter_note(section_note@.subrange(i as int, j as int)),
            forall|k: int| 0 <= k < out@.len() ==> out@[k] < 128,
        decreases n - j,
    {
        let ghost pre = section_note@.subrange(i as int, j as int);
        let ghost cur = section_note@.subrange(i as int, j + 1int);
        proof {
            assert(cur.drop_last() =~= pre);
            assert(cur.last() == section_note@[j as int]);
        }
        let b = section_note[j];
        if b != 0 && b < 128 {
            out.push(b);
        }
        j += 1;
    }
    proof {
        assert(section_note@.subrange(i as int, n as int) =~= tail);
    }
    let r = ascii_string(&out);
    proof {
        assert(r@ =~= note_text(section_note@));
    }
    r
}

// ------------------------------------------------------------------
// Splitting the text into lines, as `str::lines` does.
// ------------------------------------------------------------------

/// Index of the first newline in `s`, or `s.len()` if there is none.
pub open spec fn first_nl(s: Seq<char>) -> int
    decreases s.len(),
{
    if s.len() == 0 {
        0
    } else if s.first() == '\n' {
        0
    } else {
        1 + first_nl(s.drop_first())
    }
}

proof fn lemma_first_nl_at(s: Seq<char>, i: int)
    requires
        0 <= i <= s.len(),
        forall|j: int| 0 <= j < i ==> s[j] != '\n',
        i == s.len() || s[i] == '\n',
    ensures
        first_nl(s) == i,
    decreases i,
{
    if i > 0 {
        lemma_first_nl_at(s.drop_first(), i - 1);
    }
}

proof fn lemma_first_nl_bounds(s: Seq<char>)
    ensures
        0 <= first_nl(s) <= s.len(),
        first_nl(s) < s.len() ==> s[first_nl(s)] == '\n',
        forall|j: int| 0 <= j < first_nl(s) ==> s[j] != '\n',
    decreases s.len(),
{
    if s.len() > 0 && s.first() != '\n' {
        lemma_first_nl_bounds(s.drop_first());
        assert forall|j: int| 0 <= j < first_nl(s) implies s[j] != '\n' by {
            if j > 0 {
                assert(s.drop_first()[j - 1] == s[j]);
            }
        }
        if first_nl(s) < s.len() {
            assert(s[first_nl(s)] == s.drop_first()[first_nl(s.drop_first())]);
        }
    }
}

/// A line without its trailing carriage return, if it has one.
pub open spec fn strip_cr(l: Seq<char>) -> Seq<char> {
    if l.len() > 0 && l.last() == '\r' {
        l.drop_last()
    } else {
        l
    }
}

/// The lines of `s`, split at newlines, each without a trailing
/// carriage return; a trailing newline does not open a final empty line.
pub open spec fn split_lines(s: Seq<char>) -> Seq<Seq<char>>
    decreases s.len(),
{
    if s.len() == 0 {
        Seq::empty()
    } else {
        let k = first_nl(s);
        let line = strip_cr(s.subrange(0, k));
        if k == s.len() {
            seq![line]
        } else if 0 <= k < s.len() {
            seq![line] + split_lines(s.subrange(k + 1, s.len() as int))
        } else {
            Seq::empty()
        }
    }
}

fn split_lines_exec(s: &str) -> (r: Vec<String>)
    ensures
        svs(r@) == split_lines(s@),
    decreases s@.len(),
{
    let n = s.unicode_len();
    if n == 0 {
        let r: Vec<String> = Vec::new();
        proof {
            assert(svs(r@) =~= split_lines(s@));
        }
        return r;
    }
    let mut k: usize = 0;
    while k < n && s.get_char(k) != '\n'
        invariant
            0 <= k <= n,
            n == s@.len(),
            forall|j: int| 0 <= j < k ==> s@[j] != '\n',
        decreases n - k,
    {
        k += 1;
    }
    proof {
        lemma_first_nl_at(s@, k as int);
    }
    let line_end: usize = if k > 0 && s.get_char(k - 1) == '\r' {
        k - 1
    } else {
        k
    };
    proof {
        assert(strip_cr(s@.subrange(0, k as int)) =~= s@.subrange(0, line_end as int));
    }
    let line: String = s.substring_char(0, line_end).to_owned();
    if k == n {
        let mut r: Vec<String> = Vec::new();
        r.push(line);
        proof {
            assert(svs(r@) =~= split_lines(s@));
        }
        r
    } else {
        let rest_str = s.substring_char(k + 1, n);
        let mut rest = split_lines_exec(rest_str);
        let mut r: Vec<String> = Vec::new();
        r.push(line);
        r.append(&mut rest);
        proof {
            assert(svs(r@) =~= split_lines(s@));
        }
        r
    }
}

// ------------------------------------------------------------------
// The argument region: lines after `    Args:` up to `    CodeProps:`.
// ------------------------------------------------------------------

/// The lines of the region, taken until the `    CodeProps:` terminator.
pub open spec fn take_until_codeprops(lines: Seq<Seq<char>>) -> Seq<Seq<char>>
    decreases lines.len(),
{
    if lines.len() == 0 {
        Seq::empty()
    } else if starts_with_spec(lines.first(), "    CodeProps:"@) {
        Seq::empty()
    } else {
        seq![lines.first()] + take_until_codeprops(lines.drop_first())
    }
}

/// The argument region: everything after the first `    Args:` line,
/// up to the `    CodeProps:` line.
pub open spec fn args_region(lines: Seq<Seq<char>>) -> Seq<Seq<char>>
    decreases lines.len(),
{
    if lines.len() == 0 {
        Seq::empty()
    } else if starts_with_spec(lines.first(), "    Args:"@) {
        take_until_codeprops(lines.drop_first())
    } else {
        args_region(lines.drop_first())
    }
}

proof fn lemma_args_region_at(ls: Seq<Seq<char>>, i: int)
    requires
        0 <= i <= ls.len(),
        forall|j: int| 0 <= j < i ==> !starts_with_spec(ls[j], "    Args:"@),
        i == ls.len() || starts_with_spec(ls[i], "    Args:"@),
    ensures
        args_region(ls) == if i == ls.len() {
            Seq::<Seq<char>>::empty()
        } else {
            take_until_codeprops(ls.subrange(i + 1, ls.len() as int))
        },
    decreases i,
{
    if i == 0 {
        if ls.len() > 0 {
            assert(ls.drop_first() =~= ls.subrange(1, ls.len() as int));
        }
    } else {
        assert(forall|j: int|
            0 <= j < i - 1 ==> ls.drop_first()[j] == ls[j + 1] && !starts_with_spec(
                ls[j + 1],
                "    Args:"@,
            ));
        lemma_args_region_at(ls.drop_first(), i - 1);
        if i < ls.len() {
            assert(ls.drop_first().subrange(i, ls.drop_first().len() as int) =~= ls.subrange(
                i + 1,
                ls.len() as int,
            ));
        }
    }
}

/// The region lines from position `p` on, up to the terminator.
fn take_region(lines: &Vec<String>, p: usize) -> (r: Vec<String>)
    requires
        p <= lines@.len(),
    ensures
        svs(r@) == take_until_codeprops(svs(lines@).subrange(p as int, lines@.len() as int)),
    decreases lines@.len() - p,
{
    let ghost rest = svs(lines@).subrange(p as int, lines@.len() as int);
    if p == lines.len() {
        let r: Vec<String> = Vec::new();
        proof {
            assert(svs(r@) =~= take_until_codeprops(rest));
        }
        r
    } else {
        proof {
            assert(rest.first() == lines@[p as int]@);
            assert(rest.drop_first() =~= svs(lines@).subrange(p + 1int, lines@.len() as int));
        }
        if str_starts_with(lines[p].as_str(), "    CodeProps:") {
            let r: Vec<String> = Vec::new();
            proof {
                assert(svs(r@) =~= take_until_codeprops(rest));
            }
            r
        } else {
            let mut rest_v = take_region(lines, p + 1);
            let mut r: Vec<String> = Vec::new();
            r.push(lines[p].clone());
            r.append(&mut rest_v);
            proof {
                assert(svs(r@) =~= take_until_codeprops(rest));
            }
            r
        }
    }
}

// ------------------------------------------------------------------
// Grouping the region into one entry list per argument.
// ------------------------------------------------------------------

/// A line with all space characters removed.
pub open spec fn despace(l: Seq<char>) -> Seq<char>
    decreases l.len(),
{
    if l.len() == 0 {
        Seq::empty()
    } else if l.last() == ' ' {
        despace(l.drop_last())
    } else {
        despace(l.drop_last()).push(l.last())
    }
}

fn despace_exec(s: &str) -> (r: String)
    ensures
        r@ == despace(s@),
{
    let n = s.unicode_len();
    let mut out = String::new();
    let mut i: usize = 0;
    while i < n
        invariant
            0 <= i <= n,
            n == s@.len(),
            out@ == despace(s@.subrange(0, i as int)),
        decreases n - i,
    {
        proof {
            assert(s@.subrange(0, i + 1int).drop_last() =~= s@.subrange(0, i as int));
            assert(s@.subrange(0, i + 1int).last() == s@[i as int]);
        }
        let c = s.get_char(i);
        if c != ' ' {
            let piece = s.substring_char(i, i + 1);
            out.append(piece);
            proof {
                assert(piece@ =~= seq![s@[i as int]]);
                assert(out@ =~= despace(s@.subrange(0, i + 1int)));
            }
        }
        i += 1;
    }
    proof {
        assert(s@.subrange(0, n as int) =~= s@);
    }
    out
}

/// A string with all apostrophes removed, as applied to type names.
pub open spec fn unquote(l: Seq<char>) -> Seq<char>
    decreases l.len(),
{
    if l.len() == 0 {
        Seq::empty()
    } else if l.last() == '\'' {
        unquote(l.drop_last())
    } else {
        unquote(l.drop_last()).push(l.last())
    }
}

fn unquote_exec(s: &str) -> (r: String)
    ensures
        r@ == unquote(s@),
{
    let n = s.unicode_len();
    let mut out = String::new();
    let mut i: usize = 0;
    while i < n
        invariant
            0 <= i <= n,
            n == s@.len(),
            out@ == unquote(s@.subrange(0, i as int)),
        decreases n - i,
    {
        proof {
            assert(s@.subrange(0, i + 1int).drop_last() =~= s@.subrange(0, i as int));
            assert(s@.subrange(0, i + 1int).last() == s@[i as int]);
        }
        let c = s.get_char(i);
        if c != '\'' {
            let piece = s.substring_char(i, i + 1);
            out.append(piece);
            proof {
                assert(piece@ =~= seq![s@[i as int]]);
                assert(out@ =~= unquote(s@.subrange(0, i + 1int)));
            }
        }
        i += 1;
    }
    proof {
        assert(s@.subrange(0, n as int) =~= s@);
    }
    out
}

/// The views of a list of entry lists.
pub open spec fn gvs(g: Seq<Vec<String>>) -> Seq<Seq<Seq<char>>> {
    g.map_values(|v: Vec<String>| svs(v@))
}

/// Groups the region lines into per-argument entry lists: a line
/// prefixed `      - ` opens a group; any other line is appended to the
/// current group, with spaces removed either way.  A line before the
/// first group marker makes the region malformed.
pub open spec fn group_args(lines: Seq<Seq<char>>) -> Option<Seq<Seq<Seq<char>>>>
    decreases lines.len(),
{
    if lines.len() == 0 {
        Some(Seq::empty())
    } else {
        match group_args(lines.drop_last()) {
            None => None,
            Some(gs) => {
                let l = lines.last();
                if starts_with_spec(l, "      - "@) {
                    Some(gs.push(seq![despace(l.subrange(8, l.len() as int))]))
                } else if gs.len() == 0 {
                    None
                } else {
                    Some(gs.update(gs.len() - 1, gs.last().push(despace(l))))
                }
            },
        }
    }
}

fn group_args_exec(region: &Vec<String>) -> (r: Result<Vec<Vec<String>>, AnalyzeError>)
    ensures
        match r {
            Ok(groups) => group_args(svs(region@)) == Some(gvs(groups@)),
            Err(e) => group_args(svs(region@)) is None && e == AnalyzeError::MetadataParse,
        },
{
    let mut groups: Vec<Vec<String>> = Vec::new();
    let mut i: usize = 0;
    while i < region.len()
        invariant
            0 <= i <= region@.len(),
            group_args(svs(region@).subrange(0, i as int)) == Some(gvs(groups@)),
        decreases region@.len() - i,
    {
        let ghost pre = svs(region@).subrange(0, i as int);
        let ghost cur = svs(region@).subrange(0, i + 1int);
        proof {
            assert(cur.drop_last() =~= pre);
            assert(cur.last() == region@[i as int]@);
        }
        let line = &region[i];
        if str_starts_with(line.as_str(), "      - ") {
            proof {
                reveal_strlit("      - ");
            }
            let entry = despace_exec(line.as_str().substring_char(8, line.as_str().unicode_len()));
            let ghost gs_old = gvs(groups@);
            let mut g: Vec<String> = Vec::new();
            g.push(entry);
            groups.push(g);
            proof {
                assert(svs(g@) =~= seq![entry@]);
                assert(gvs(groups@) =~= gs_old.push(svs(g@)));
                assert(gvs(groups@) =~~= group_args(cur).unwrap());
            }
        } else if groups.len() == 0 {
            proof {
                assert(group_args(cur) is None);
                assert(svs(region@).subrange(0, region@.len() as int) =~= svs(region@));
                lemma_group_args_none_persists(svs(region@), i + 1);
            }
            return Err(AnalyzeError::MetadataParse);
        } else {
            let entry = despace_exec(line.as_str());
            let ghost gs_old = gvs(groups@);
            let mut g = match groups.pop() {
                Some(g) => g,
                None => {
                    return Err(AnalyzeError::MetadataParse);  // unreachable: groups is nonempty
                },
            };
            let ghost g_old = svs(g@);
            g.push(entry);
            groups.push(g);
            proof {
                assert(svs(g@) =~= g_old.push(entry@));
                assert(g_old == gs_old.last());
                assert(gvs(groups@) =~= gs_old.update(gs_old.len() - 1, svs(g@)));
                assert(gvs(groups@) =~~= group_args(cur).unwrap());
            }
        }
        i += 1;
    }
    proof {
        assert(svs(region@).subrange(0, region@.len() as int) =~= svs(region@));
    }
    Ok(groups)
}

// ------------------------------------------------------------------
// Reading the keys of one argument's entry list.
// ------------------------------------------------------------------

/// The first entry that begins with `prefix`.
pub open spec fn find_prefixed(entries: Seq<Seq<char>>, prefix: Seq<char>) -> Option<Seq<char>>
    decreases entries.len(),
{
    if entries.len() == 0 {
        None
    } else if starts_with_spec(entries.first(), prefix) {
        Some(entries.first())
    } else {
        find_prefixed(entries.drop_first(), prefix)
    }
}

pub open spec fn opt_str_view(o: Option<String>) -> Option<Seq<char>> {
    match o {
        Some(s) => Some(s@),
        None => None,
    }
}

fn find_prefixed_exec(entries: &Vec<String>, prefix: &str, p: usize) -> (r: Option<String>)
    requires
        p <= entries@.len(),
    ensures
        opt_str_view(r) == find_prefixed(
            svs(entries@).subrange(p as int, entries@.len() as int),
            prefix@,
        ),
    decreases entries@.len() - p,
{
    let ghost rest = svs(entries@).subrange(p as int, entries@.len() as int);
    if p == entries.len() {
        None
    } else {
        proof {
            assert(rest.first() == entries@[p as int]@);
            assert(rest.drop_first() =~= svs(entries@).subrange(p + 1int, entries@.len() as int));
        }
        if str_starts_with(entries[p].as_str(), prefix) {
            Some(entries[p].clone())
        } else {
            find_prefixed_exec(entries, prefix, p + 1)
        }
    }
}

/// Decimal value of a digit string.
pub open spec fn dec_val(s: Seq<char>) -> int
    decreases s.len(),
{
    if s.len() == 0 {
        0
    } else {
        dec_val(s.drop_last()) * 10 + digit_val(s.last())
    }
}

pub open spec fn all_dec_digits(s: Seq<char>) -> bool {
    forall|i: int| 0 <= i < s.len() ==> is_dec_digit(s[i])
}

/// A non-empty all-digit string whose value fits in a u32 parses to
/// that value; anything else does not parse.
pub open spec fn parse_u32_chars(s: Seq<char>) -> Option<u32> {
    if s.len() > 0 && all_dec_digits(s) && dec_val(s) <= u32::MAX {
        Some(dec_val(s) as u32)
    } else {
        None
    }
}

proof fn lemma_dec_val_nonneg(s: Seq<char>)
    requires
        all_dec_digits(s),
    ensures
        dec_val(s) >= 0,
    decreases s.len(),
{
    if s.len() > 0 {
        assert(all_dec_digits(s.drop_last()));
        lemma_dec_val_nonneg(s.drop_last());
    }
}

proof fn lemma_dec_val_prefix(s: Seq<char>, i: int)
    requires
        all_dec_digits(s),
        0 <= i <= s.len(),
    ensures
        dec_val(s.subrange(0, i)) <= dec_val(s),
    decreases s.len() - i,
{
    if i == s.len() {
        assert(s.subrange(0, i) =~= s);
    } else {
        lemma_dec_val_prefix(s, i + 1);
        let t = s.subrange(0, i + 1);
        assert(t.drop_last() =~= s.subrange(0, i));
        assert(all_dec_digits(s.subrange(0, i)));
        lemma_dec_val_nonneg(s.subrange(0, i));
        assert(dec_val(t) == dec_val(s.subrange(0, i)) * 10 + digit_val(s[i]));
    }
}

fn parse_u32_exec(s: &str) -> (r: Option<u32>)
    ensures
        r == parse_u32_chars(s@),
{
    let n = s.unicode_len();
    if n == 0 {
        return None;
    }
    let mut acc: u64 = 0;
    let mut i: usize = 0;
    while i < n
        invariant
            0 <= i <= n,
            n == s@.len(),
            all_dec_digits(s@.subrange(0, i as int)),
            acc == dec_val(s@.subrange(0, i as int)),
            acc <= u32::MAX,
        decreases n - i,
    {
        let ghost pre = s@.subrange(0, i as int);
        let ghost cur = s@.subrange(0, i + 1int);
        proof {
            assert(cur.drop_last() =~= pre);
            assert(cur.last() == s@[i as int]);
        }
        let c = s.get_char(i);
        if !(c >= '0' && c <= '9') {
            proof {
                assert(!is_dec_digit(s@[i as int]));
                assert(parse_u32_chars(s@) is None);
            }
            return None;
        }
        let d: u32 = c as u32 - 48;
        acc = acc * 10 + d as u64;
        proof {
            assert(all_dec_digits(cur));
            assert(digit_val(s@[i as int]) == d as int);
        }
        if acc > 0xffff_ffffu64 {
            proof {
                if all_dec_digits(s@) {
                    lemma_dec_val_prefix(s@, i + 1);
                }
                assert(parse_u32_chars(s@) is None);
            }
            return None;
        }
        i += 1;
    }
    proof {
        assert(s@.subrange(0, n as int) =~= s@);
    }
    Some(acc as u32)
}

/// Whether some entry is exactly `IsConst:true`.
pub open spec fn is_const_spec(entries: Seq<Seq<char>>) -> bool {
    exists|j: int| 0 <= j < entries.len() && entries[j] == "IsConst:true"@
}

fn is_const_exec(entries: &Vec<String>) -> (r: bool)
    ensures
        r == is_const_spec(svs(entries@)),
{
    let mut i: usize = 0;
    while i < entries.len()
        invariant
            0 <= i <= entries@.len(),
            forall|j: int| 0 <= j < i ==> svs(entries@)[j] != "IsConst:true"@,
        decreases entries@.len() - i,
    {
        if str_eq(entries[i].as_str(), "IsConst:true") {
            proof {
                assert(svs(entries@)[i as int] == "IsConst:true"@);
            }
            return true;
        }
        i += 1;
    }
    false
}

/// The type name of an argument: the `TypeName:` value with apostrophes
/// removed; `None` on a malformed entry, `Some(None)` when absent.
pub open spec fn typename_of(entries: Seq<Seq<char>>) -> Option<Option<Seq<char>>> {
    match find_prefixed(entries, "TypeName"@) {
        None => Some(None),
        Some(te) => if te.len() >= 9 {
            Some(Some(unquote(te.subrange(9, te.len() as int))))
        } else {
            None
        },
    }
}

/// The name of an argument: the `Name:` value, or the `ValueKind:`
/// value when no `Name`-prefixed entry exists.
pub open spec fn name_of(entries: Seq<Seq<char>>) -> Option<Seq<char>> {
    match find_prefixed(entries, "Name"@) {
        Some(e) => if e.len() >= 5 {
            Some(e.subrange(5, e.len() as int))
        } else {
            None
        },
        None => match find_prefixed(entries, "ValueKind"@) {
            Some(e) => if e.len() >= 10 {
                Some(e.subrange(10, e.len() as int))
            } else {
                None
            },
            None => None,
        },
    }
}

/// One argument's record parsed from its entry list: name (or value
/// kind), size, alignment, optional type name, constness.  A missing or
/// malformed required key, or a zero alignment, is a parse failure.
pub open spec fn parse_group_spec(entries: Seq<Seq<char>>) -> Option<RawArgView> {
    match name_of(entries) {
        None => None,
        Some(name) => match find_prefixed(entries, "Size"@) {
            None => None,
            Some(se) => if se.len() < 5 {
                None
            } else {
                match parse_u32_chars(se.subrange(5, se.len() as int)) {
                    None => None,
                    Some(size) => match find_prefixed(entries, "Align"@) {
                        None => None,
                        Some(ae) => if ae.len() < 6 {
                            None
                        } else {
                            match parse_u32_chars(ae.subrange(6, ae.len() as int)) {
                                None => None,
                                Some(align) => if align == 0 {
                                    None
                                } else {
                                    match typename_of(entries) {
                                        None => None,
                                        Some(typename) => Some(
                                            RawArgView {
                                                name,
                                                size,
                                                align,
                                                typename,
                                                is_const: is_const_spec(entries),
                                            },
                                        ),
                                    }
                                },
                            }
                        },
                    },
                }
            },
        },
    }
}

fn parse_group_exec(entries: &Vec<String>) -> (r: Result<RawArg, AnalyzeError>)
    ensures
        match r {
            Ok(ra) => parse_group_spec(svs(entries@)) == Some(ra@),
            Err(e) => parse_group_spec(svs(entries@)) is None && e == AnalyzeError::MetadataParse,
        },
{
    let ghost evs = svs(entries@);
    let name: String = match find_prefixed_exec(entries, "Name", 0) {
        Some(e) => {
            proof {
                assert(evs.subrange(0, evs.len() as int) =~= evs);
            }
            let nlen = e.as_str().unicode_len();
            if nlen < 5 {
                return Err(AnalyzeError::MetadataParse);
            }
            e.as_str().substring_char(5, nlen).to_owned()
        },
        None => {
            proof {
                assert(evs.subrange(0, evs.len() as int) =~= evs);
            }
            match find_prefixed_exec(entries, "ValueKind", 0) {
                Some(e) => {
                    let nlen = e.as_str().unicode_len();
                    if nlen < 10 {
                        return Err(AnalyzeError::MetadataParse);
                    }
                    e.as_str().substring_char(10, nlen).to_owned()
                },
                None => {
                    return Err(AnalyzeError::MetadataParse);
                },
            }
        },
    };
    let size: u32 = match find_prefixed_exec(entries, "Size", 0) {
        Some(e) => {
            let nlen = e.as_str().unicode_len();
            if nlen < 5 {
                return Err(AnalyzeError::MetadataParse);
            }
            match parse_u32_exec(e.as_str().substring_char(5, nlen)) {
                Some(v) => v,
                None => {
                    return Err(AnalyzeError::MetadataParse);
                },
            }
        },
        None => {
            return Err(AnalyzeError::MetadataParse);
        },
    };
    let align: u32 = match find_prefixed_exec(entries, "Align", 0) {
        Some(e) => {
            let nlen = e.as_str().unicode_len();
            if nlen < 6 {
                return Err(AnalyzeError::MetadataParse);
            }
            match parse_u32_exec(e.as_str().substring_char(6, nlen)) {
                Some(v) => v,
                None => {
                    return Err(AnalyzeError::MetadataParse);
                },
            }
        },
        None => {
            return Err(AnalyzeError::MetadataParse);
        },
    };
    if align == 0 {
        return Err(AnalyzeError::MetadataParse);
    }
    let typename: Option<String> = match find_prefixed_exec(entries, "TypeName", 0) {
        Some(e) => {
            let nlen = e.as_str().unicode_len();
            if nlen < 9 {
                return Err(AnalyzeError::MetadataParse);
            }
            Some(unquote_exec(e.as_str().substring_char(9, nlen)))
        },
        None => None,
    };
    let is_const = is_const_exec(entries);
    Ok(RawArg { name, size, align, typename, is_const })
}

// ------------------------------------------------------------------
// Offset layout.
// ------------------------------------------------------------------

/// `off` rounded up to the next multiple of `a`.
pub open spec fn align_up(off: int, a: int) -> int {
    ((off + a - 1) / a) * a
}

pub open spec fn arg_of(r: RawArgView, offset: u32) -> KernelArgView {
    KernelArgView {
        name: r.name,
        size: r.size,
        offset,
        typename: r.typename,
        is_const: r.is_const,
    }
}

/// Sequential layout from `off`: each argument's offset is the running
/// offset aligned up to the argument's alignment, and the running
/// offset then advances past the argument.  A zero alignment or an
/// offset beyond the u32 range fails.
pub open spec fn layout_rec(raws: Seq<RawArgView>, i: int, off: int) -> Option<Seq<KernelArgView>>
    decreases raws.len() - i,
{
    if i < 0 || i >= raws.len() {
        Some(Seq::empty())
    } else if raws[i].align == 0 {
        None
    } else {
        let aligned = align_up(off, raws[i].align as int);
        if aligned + raws[i].size > u32::MAX {
            None
        } else {
            match layout_rec(raws, i + 1, aligned + raws[i].size) {
                None => None,
                Some(rest) => Some(seq![arg_of(raws[i], aligned as u32)] + rest),
            }
        }
    }
}

/// The views of a list of raw arguments.
pub open spec fn rvs(v: Seq<RawArg>) -> Seq<RawArgView> {
    v.map_values(|x: RawArg| x@)
}

/// The views of a list of laid-out arguments.
pub open spec fn avs(v: Seq<KernelArg>) -> Seq<KernelArgView> {
    v.map_values(|x: KernelArg| x@)
}

proof fn lemma_align_up(off: int, a: int)
    requires
        a >= 1,
        off >= 0,
    ensures
        align_up(off, a) % a == 0,
        off <= align_up(off, a) < off + a,
        off == 0 ==> align_up(off, a) == 0,
{
    if off == 0 {
        vstd::arithmetic::div_mod::lemma_basic_div(a - 1, a);
    }
    let x = off + a - 1;
    let q = x / a;
    let r = x % a;
    vstd::arithmetic::div_mod::lemma_fundamental_div_mod(x, a);
    vstd::arithmetic::div_mod::lemma_mod_bound(x, a);
    assert(q * a == x - r) by (nonlinear_arith)
        requires
            x == a * q + r,
    ;
    vstd::arithmetic::div_mod::lemma_mod_multiples_basic(q, a);
    assert(align_up(off, a) == q * a);
}

fn layout_exec(raws: &Vec<RawArg>) -> (r: Result<Vec<KernelArg>, AnalyzeError>)
    ensures
        match r {
            Ok(v) => layout_rec(rvs(raws@), 0, 0) == Some(avs(v@)),
            Err(e) => layout_rec(rvs(raws@), 0, 0) is None && e == AnalyzeError::MetadataParse,
        },
{
    let mut out: Vec<KernelArg> = Vec::new();
    let mut off: u64 = 0;
    let mut i: usize = 0;
    while i < raws.len()
        invariant
            0 <= i <= raws@.len(),
            off <= u32::MAX,
            layout_rec(rvs(raws@), 0, 0) == (match layout_rec(rvs(raws@), i as int, off as int) {
                Some(rest) => Some(avs(out@) + rest),
                None => None::<Seq<KernelArgView>>,
            }),
        decreases raws@.len() - i,
    {
        let a = raws[i].align;
        proof {
            assert(rvs(raws@)[i as int] == raws@[i as int]@);
        }
        if a == 0 {
            return Err(AnalyzeError::MetadataParse);
        }
        proof {
            lemma_align_up(off as int, a as int);
        }
        let aligned: u64 = ((off + a as u64 - 1) / a as u64) * a as u64;
        if aligned > 0xffff_ffffu64 || raws[i].size as u64 > 0xffff_ffffu64 - aligned {
            proof {
                assert(layout_rec(rvs(raws@), i as int, off as int) is None);
            }
            return Err(AnalyzeError::MetadataParse);
        }
        let arg = KernelArg {
            name: raws[i].name.clone(),
            size: raws[i].size,
            offset: aligned as u32,
            typename: match &raws[i].typename {
                Some(t) => Some(t.clone()),
                None => None,
            },
            is_const: raws[i].is_const,
        };
        let ghost out_pre = avs(out@);
        out.push(arg);
        proof {
            let rv = rvs(raws@);
            assert(arg@ == arg_of(rv[i as int], aligned as u32));
            assert(avs(out@) =~= out_pre.push(arg@));
            assert(aligned as int == align_up(off as int, rv[i as int].align as int));
            let next = layout_rec(rv, i + 1int, aligned as int + rv[i as int].size);
            assert(layout_rec(rv, i as int, off as int) == (match next {
                None => None::<Seq<KernelArgView>>,
                Some(rest) => Some(seq![arg_of(rv[i as int], aligned as u32)] + rest),
            }));
            if next is Some {
                assert(avs(out@) + next.unwrap() =~= out_pre + (seq![arg@] + next.unwrap()));
            }
        }
        off = aligned + raws[i].size as u64;
        i += 1;
    }
    proof {
        assert(layout_rec(rvs(raws@), i as int, off as int) == Some(Seq::<KernelArgView>::empty()));
        assert(avs(out@) + Seq::<KernelArgView>::empty() =~= avs(out@));
    }
    Ok(out)
}

/// Once grouping has failed on a prefix, it fails on every extension.
proof fn lemma_group_args_none_persists(lines: Seq<Seq<char>>, i: int)
    requires
        0 <= i <= lines.len(),
        group_args(lines.subrange(0, i)) is None,
    ensures
        group_args(lines) is None,
    decreases lines.len() - i,
{
    if i == lines.len() {
        assert(lines.subrange(0, i) =~= lines);
    } else {
        assert(lines.subrange(0, i + 1).drop_last() =~= lines.subrange(0, i));
        lemma_group_args_none_persists(lines, i + 1);
    }
}

// ------------------------------------------------------------------
// The whole extraction, and the argument table.
// ------------------------------------------------------------------

/// All groups parsed, in order; any malformed group fails the parse.
pub open spec fn parse_groups(gs: Seq<Seq<Seq<char>>>) -> Option<Seq<RawArgView>>
    decreases gs.len(),
{
    if gs.len() == 0 {
        Some(Seq::empty())
    } else {
        match parse_groups(gs.drop_last()) {
            None => None,
            Some(raws) => match parse_group_spec(gs.last()) {
                None => None,
                Some(ra) => Some(raws.push(ra)),
            },
        }
    }
}

/// What a `.note` section's bytes yield: the metadata text is located,
/// split into lines, the argument region grouped per argument, each
/// group parsed, and offsets laid out; `None` is a metadata failure.
pub open spec fn extract_spec(bytes: Seq<u8>) -> Option<Seq<KernelArgView>> {
    match group_args(args_region(split_lines(note_text(bytes)))) {
        None => None,
        Some(gs) => match parse_groups(gs) {
            None => None,
            Some(raws) => layout_rec(raws, 0, 0),
        },
    }
}

/// The ordered kernel-argument table.
#[derive(Debug, Clone, PartialEq)]
pub struct KernelArgs(Vec<KernelArg>);

impl View for KernelArgs {
    type V = Seq<KernelArgView>;

    closed spec fn view(&self) -> Seq<KernelArgView> {
        avs(self.0@)
    }
}

/// Index of the first argument whose offset exceeds `at`, scanning
/// from the front; arguments after it are not considered even if their
/// offsets are smaller.
pub open spec fn first_gt_offset(args: Seq<KernelArgView>, at: u32) -> int
    decreases args.len(),
{
    if args.len() == 0 {
        0
    } else if args.first().offset > at {
        0
    } else {
        1 + first_gt_offset(args.drop_first(), at)
    }
}

/// The argument a byte offset falls into, with a half-word index into
/// it: the last argument of the leading run whose offsets do not
/// exceed `at_offset`.
pub open spec fn find_idx_dword_spec(args: Seq<KernelArgView>, at: u32) -> Option<(usize, u8)> {
    let k = first_gt_offset(args, at);
    if k == 0 {
        None
    } else {
        Some(((k - 1) as usize, (((at - args[k - 1].offset) as u32) / 2) as u8))
    }
}

proof fn lemma_first_gt_at(args: Seq<KernelArgView>, at: u32, i: int)
    requires
        0 <= i <= args.len(),
        forall|j: int| 0 <= j < i ==> args[j].offset <= at,
        i == args.len() || args[i].offset > at,
    ensures
        first_gt_offset(args, at) == i,
    decreases i,
{
    if i > 0 {
        assert(forall|j: int| 0 <= j < i - 1 ==> args.drop_first()[j] == args[j + 1]);
        lemma_first_gt_at(args.drop_first(), at, i - 1);
    }
}

impl KernelArgs {
    /// Wraps an argument list already laid out.
    pub fn new(args: Vec<KernelArg>) -> (r: KernelArgs)
        ensures
            r@ == avs(args@),
    {
        KernelArgs(args)
    }

    /// The arguments, in order.
    pub fn iter(&self) -> (r: &Vec<KernelArg>)
        ensures
            avs(r@) == self@,
    {
        &self.0
    }

    /// The argument an offset into the kernarg segment falls into, and
    /// the half-word index within it.
    pub fn find_idx_and_dword(&self, at_offset: u32) -> (r: Option<(usize, u8)>)
        ensures
            r == find_idx_dword_spec(self@, at_offset),
    {
        let n = self.0.len();
        let mut i: usize = 0;
        while i < n && self.0[i].offset <= at_offset
            invariant
                0 <= i <= n,
                n == self@.len(),
                forall|j: int| 0 <= j < i ==> self@[j].offset <= at_offset,
            decreases n - i,
        {
            proof {
                assert(self@[i as int] == self.0@[i as int]@);
            }
            i += 1;
        }
        proof {
            assert(i < n ==> self@[i as int].offset > at_offset);
            lemma_first_gt_at(self@, at_offset, i as int);
        }
        if i == 0 {
            None
        } else {
            let off = self.0[i - 1].offset;
            proof {
                assert(self@[i - 1int].offset == off);
            }
            Some((i - 1, ((at_offset - off) / 2) as u8))
        }
    }
}

/// Parses the kernel-argument metadata out of the raw bytes of the
/// `.note` section and lays out the argument offsets.
pub fn extract_kernel_args(section_note: &Vec<u8>) -> (r: Result<KernelArgs, AnalyzeError>)
    ensures
        match r {
            Ok(ka) => extract_spec(section_note@) == Some(ka@),
            Err(e) => extract_spec(section_note@) is None && e == AnalyzeError::MetadataParse,
        },
{
    let txt = note_text_exec(section_note);
    let lines = split_lines_exec(txt.as_str());

    // Find the line that opens the argument block.
    let mut i: usize = 0;
    while i < lines.len() && !str_starts_with(lines[i].as_str(), "    Args:")
        invariant
            0 <= i <= lines@.len(),
            forall|j: int| 0 <= j < i ==> !starts_with_spec(svs(lines@)[j], "    Args:"@),
        decreases lines@.len() - i,
    {
        i += 1;
    }
    proof {
        lemma_args_region_at(svs(lines@), i as int);
    }
    let region: Vec<String> = if i == lines.len() {
        Vec::new()
    } else {
        take_region(&lines, i + 1)
    };
    proof {
        assert(svs(region@) =~= args_region(svs(lines@)));
    }

    let groups = match group_args_exec(&region) {
        Ok(g) => g,
        Err(e) => {
            return Err(e);
        },
    };

    proof {
        assert(group_args(args_region(split_lines(note_text(section_note@)))) == Some(
            gvs(groups@),
        ));
    }
    let mut raws: Vec<RawArg> = Vec::new();
    let mut k: usize = 0;
    while k < groups.len()
        invariant
            0 <= k <= groups@.len(),
            parse_groups(gvs(groups@).subrange(0, k as int)) == Some(rvs(raws@)),
            group_args(args_region(split_lines(note_text(section_note@)))) == Some(gvs(groups@)),
        decreases groups@.len() - k,
    {
        let ghost pre = gvs(groups@).subrange(0, k as int);
        let ghost cur = gvs(groups@).subrange(0, k + 1int);
        proof {
            assert(cur.drop_last() =~= pre);
            assert(cur.last() == gvs(groups@)[k as int]);
        }
        match parse_group_exec(&groups[k]) {
            Ok(ra) => {
                let ghost raws_pre = rvs(raws@);
                raws.push(ra);
                proof {
                    assert(rvs(raws@) =~= raws_pre.push(ra@));
                }
            },
            Err(e) => {
                proof {
                    assert(gvs(groups@)[k as int] == svs(groups@[k as int]@));
                    assert(parse_group_spec(cur.last()) is None);
                    assert(parse_groups(cur) is None);
                    lemma_parse_groups_none_persists(gvs(groups@), k + 1);
                    assert(parse_groups(gvs(groups@)) is None);
                    assert(group_args(args_region(split_lines(note_text(section_note@))))
                        == Some(gvs(groups@)));
                    assert(extract_spec(section_note@) is None);
                }
                return Err(e);
            },
        }
        k += 1;
    }
    proof {
        assert(gvs(groups@).subrange(0, groups@.len() as int) =~= gvs(groups@));
    }

    match layout_exec(&raws) {
        Ok(v) => Ok(KernelArgs(v)),
        Err(e) => Err(e),
    }
}

/// Once parsing has failed on a group prefix, it fails on the whole.
proof fn lemma_parse_groups_none_persists(gs: Seq<Seq<Seq<char>>>, i: int)
    requires
        0 <= i <= gs.len(),
        parse_groups(gs.subrange(0, i)) is None,
    ensures
        parse_groups(gs) is None,
    decreases gs.len() - i,
{
    if i == gs.len() {
        assert(gs.subrange(0, i) =~= gs);
    } else {
        assert(gs.subrange(0, i + 1).drop_last() =~= gs.subrange(0, i));
        lemma_parse_groups_none_persists(gs, i + 1);
    }
}

// ------------------------------------------------------------------
// The layout law.
// ------------------------------------------------------------------

/// Laid-out argument offsets start at zero, are each a multiple of the
/// argument's alignment, and never overlap: every offset is at least
/// the previous argument's offset plus its size.
pub proof fn lemma_arg_offsets(raws: Seq<RawArgView>, args: Seq<KernelArgView>)
    requires
        layout_rec(raws, 0, 0) == Some(args),
    ensures
        args.len() == raws.len(),
        args.len() > 0 ==> args[0].offset == 0,
        forall|j: int|
            0 <= j < args.len() ==> #[trigger] (args[j].offset as int) % (raws[j].align as int)
                == 0,
        forall|j: int|
            1 <= j < args.len() ==> #[trigger] args[j].offset >= args[j - 1].offset + args[j
                - 1].size,
{
    lemma_layout_rec_offsets(raws, 0, 0, args);
    if args.len() > 0 {
        assert(raws[0].align >= 1);
        lemma_align_up(0, raws[0].align as int);
    }
}

#[verifier::rlimit(100)]
proof fn lemma_layout_rec_offsets(raws: Seq<RawArgView>, i: int, off: int, args: Seq<KernelArgView>)
    requires
        0 <= i <= raws.len(),
        0 <= off,
        layout_rec(raws, i, off) == Some(args),
    ensures
        args.len() == raws.len() - i,
        forall|j: int| 0 <= j < args.len() ==> args[j].size == raws[i + j].size,
        args.len() > 0 ==> args[0].offset == align_up(off, raws[i].align as int),
        forall|j: int|
            0 <= j < args.len() ==> #[trigger] (args[j].offset as int) % (raws[i + j].align as int)
                == 0,
        forall|j: int|
            1 <= j < args.len() ==> #[trigger] args[j].offset >= args[j - 1].offset + args[j
                - 1].size,
    decreases raws.len() - i,
{
    if i < raws.len() {
        let a = raws[i].align as int;
        assert(a >= 1);
        lemma_align_up(off, a);
        let aligned = align_up(off, a);
        let rest = layout_rec(raws, i + 1, aligned + raws[i].size).unwrap();
        lemma_layout_rec_offsets(raws, i + 1, aligned + raws[i].size, rest);
        assert(args =~= seq![arg_of(raws[i], aligned as u32)] + rest);
        assert(args[0].offset == aligned);
        if rest.len() > 0 {
            let a1 = raws[i + 1].align as int;
            assert(a1 >= 1);
            lemma_align_up(aligned + raws[i].size, a1);
            assert(rest[0].offset == align_up(aligned + raws[i].size, a1));
            assert(args[1].offset >= args[0].offset + args[0].size);
        }
        assert forall|j: int|
            0 <= j < args.len() implies #[trigger] (args[j].offset as int) % (raws[i + j].align
            as int) == 0 by {
            if j > 0 {
                assert(args[j] == rest[j - 1]);
                assert((rest[j - 1].offset as int) % (raws[i + 1 + (j - 1)].align as int) == 0);
            }
        }
        assert forall|j: int|
            1 <= j < args.len() implies #[trigger] args[j].offset >= args[j - 1].offset + args[j
            - 1].size by {
            if j > 1 {
                assert(args[j] == rest[j - 1] && args[j - 1] == rest[j - 2]);
                assert(rest[j - 1].offset >= rest[j - 2].offset + rest[j - 2].size);
            }
        }
    }
}

} // verus!
