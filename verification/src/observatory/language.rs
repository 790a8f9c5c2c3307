//! A toy language: imports become document links, markers and a few type
//! rules become diagnostics, keywords and strings become semantic tokens.
//!
//! Columns are one-based byte offsets into a line, as `str::find` counts.
use vstd::prelude::*;
use crate::observatory::types::{
    CompilerConfig, Diagnostic, DiagnosticView, DocumentLink, DocumentLinkView, SemanticToken,
    SemanticTokenView,
};
use crate::strmap::views;
use crate::text::{
    append, chars_of, contains, contains_chars, dec, find, find_chars, lemma_find_shift, lines,
    lines_of, match_at, matches_at, owned, push_char, push_dec, starts_with, string_of_range,
    str_eq,
};

verus! {

// ---------------------------------------------------------------------
// Byte offsets
// ---------------------------------------------------------------------
/// The number of bytes UTF-8 takes for a character.
pub open spec fn utf8_width(c: char) -> nat {
    if (c as int) < 0x80 {
        1
    } else if (c as int) < 0x800 {
        2
    } else if (c as int) < 0x10000 {
        3
    } else {
        4
    }
}

/// The number of bytes UTF-8 takes for a sequence of characters.
pub open spec fn byte_len(s: Seq<char>) -> nat
    decreases s.len(),
{
    if s.len() == 0 {
        0
    } else {
        byte_len(s.drop_last()) + utf8_width(s.last())
    }
}

/// A number as a `usize`, held at `usize::MAX` when larger (never reached
/// for offsets into strings that exist).
pub open spec fn sat(n: int) -> usize {
    if n > usize::MAX {
        usize::MAX as usize
    } else if n < 0 {
        0
    } else {
        n as usize
    }
}

fn width_of(c: char) -> (w: usize)
    ensures
        w == utf8_width(c),
{
    let v = c as u32;
    if v < 0x80 {
        1
    } else if v < 0x800 {
        2
    } else if v < 0x10000 {
        3
    } else {
        4
    }
}

/// The byte offset of character position `upto` in `s`.
pub fn byte_offset(s: &[char], upto: usize) -> (r: usize)
    requires
        upto <= s@.len(),
    ensures
        r == sat(byte_len(s@.subrange(0, upto as int)) as int),
{
    let mut acc: usize = 0;
    let mut i: usize = 0;
    assert(s@.subrange(0, 0) =~= Seq::<char>::empty());
    while i < upto
        invariant
            i <= upto <= s@.len(),
            acc == sat(byte_len(s@.subrange(0, i as int)) as int),
        decreases upto - i,
    {
        let w = width_of(s[i]);
        assert(s@.subrange(0, i + 1).drop_last() =~= s@.subrange(0, i as int));
        if acc > usize::MAX - w {
            acc = usize::MAX;
        } else {
            acc = acc + w;
        }
        i = i + 1;
    }
    acc
}

fn sat_add(a: usize, b: usize) -> (r: usize)
    ensures
        r == sat(a + b),
{
    if a > usize::MAX - b {
        usize::MAX
    } else {
        a + b
    }
}

proof fn lemma_sat_add(a: int, b: int)
    requires
        a >= 0,
        b >= 0,
    ensures
        sat(sat(a) + b) == sat(a + b),
{
}

// ---------------------------------------------------------------------
// Imports
// ---------------------------------------------------------------------
/// The index of the last occurrence of `c` in `s`.
pub open spec fn last_index_of(s: Seq<char>, c: char) -> Option<int>
    decreases s.len(),
{
    if s.len() == 0 {
        None
    } else if s.last() == c {
        Some(s.len() - 1)
    } else {
        last_index_of(s.drop_last(), c)
    }
}

/// What `last_index_of` finds is a position holding the character.
pub proof fn lemma_last_index(s: Seq<char>, c: char)
    ensures
        last_index_of(s, c) matches Some(i) ==> 0 <= i < s.len() && s[i] == c,
    decreases s.len(),
{
    if s.len() > 0 && s.last() != c {
        lemma_last_index(s.drop_last(), c);
    }
}

/// The directory part of a path: what precedes its last `/`, or nothing.
pub open spec fn dir_of(path: Seq<char>) -> Seq<char> {
    match last_index_of(path, '/') {
        Some(i) => path.subrange(0, i),
        None => Seq::empty(),
    }
}

/// An import resolved against the importing file's directory, a leading
/// `./` dropped.
pub open spec fn resolve_spec(path: Seq<char>, raw: Seq<char>) -> Seq<char> {
    let dir = dir_of(path);
    let clean = if starts_with(raw, "./"@) {
        raw.subrange(2, raw.len() as int)
    } else {
        raw
    };
    if dir.len() == 0 {
        clean
    } else {
        dir + "/"@ + clean
    }
}

/// The link that a line holds, if it imports anything.
pub open spec fn link_of_line(
    path: Seq<char>,
    line: Seq<char>,
    idx: int,
    files: Seq<Seq<char>>,
) -> Option<DocumentLinkView> {
    match find(line, "import \""@) {
        None => None,
        Some(p) => {
            let start = p + 8;
            let rest = line.subrange(start, line.len() as int);
            match find(rest, "\""@) {
                None => None,
                Some(e) => {
                    let raw = rest.subrange(0, e);
                    let target = resolve_spec(path, raw);
                    let sb = byte_len(line.subrange(0, start));
                    let eb = byte_len(rest.subrange(0, e));
                    Some(
                        DocumentLinkView {
                            id: "link:"@ + path + ":"@ + dec((idx + 1) as nat) + ":"@ + target,
                            file_path: path,
                            target_path: target,
                            line: (idx + 1) as usize,
                            column_start: sat(sb + 1int),
                            column_end: sat(sb + eb + 1int),
                            status: if files.contains(target) {
                                "resolved"@
                            } else {
                                "missing"@
                            },
                        },
                    )
                },
            }
        },
    }
}

/// The elements of an option, as a sequence.
pub open spec fn opt_seq<T>(o: Option<T>) -> Seq<T> {
    match o {
        Some(x) => seq![x],
        None => Seq::empty(),
    }
}

/// The links of a text, line by line.
pub open spec fn imports_spec(path: Seq<char>, contents: Seq<char>, files: Seq<Seq<char>>) -> Seq<
    DocumentLinkView,
> {
    let ls = lines(contents);
    Seq::new(ls.len(), |i: int| opt_seq(link_of_line(path, ls[i], i, files))).flatten()
}

fn index_of_last(s: &[char], c: char) -> (r: Option<usize>)
    ensures
        r matches Some(i) ==> last_index_of(s@, c) == Some(i as int),
        r is None ==> last_index_of(s@, c) is None,
{
    let mut i: usize = s.len();
    assert(s@.subrange(0, s@.len() as int) =~= s@);
    while i > 0
        invariant
            i <= s@.len(),
            last_index_of(s@, c) == last_index_of(s@.subrange(0, i as int), c),
        decreases i,
    {
        assert(s@.subrange(0, i as int).drop_last() =~= s@.subrange(0, i - 1));
        if s[i - 1] == c {
            return Some(i - 1);
        }
        i = i - 1;
    }
    None
}

/// An import resolved against the importing file's directory.
pub fn resolve(path: &str, raw: &str) -> (r: String)
    ensures
        r@ == resolve_spec(path@, raw@),
{
    let pc = chars_of(path);
    let rc = chars_of(raw);
    let clean = if str_starts_with_dot_slash(rc.as_slice()) {
        string_of_range(rc.as_slice(), 2, rc.len())
    } else {
        owned(raw)
    };
    proof {
        reveal_strlit("./");
    }
    let found = index_of_last(pc.as_slice(), '/');
    proof {
        lemma_last_index(path@, '/');
    }
    match found {
        Some(i) if i > 0 => {
            let mut r = string_of_range(pc.as_slice(), 0, i);
            append(&mut r, "/");
            append(&mut r, clean.as_str());
            r
        },
        _ => {
            proof {
                if found is Some {
                    assert(path@.subrange(0, 0) =~= Seq::<char>::empty());
                }
            }
            clean
        },
    }
}

fn str_starts_with_dot_slash(rc: &[char]) -> (b: bool)
    ensures
        b == starts_with(rc@, "./"@),
        b ==> rc@.len() >= 2,
{
    let ds = chars_of("./");
    proof {
        reveal_strlit("./");
    }
    matches_at(rc, ds.as_slice(), 0)
}

fn files_contain(files: &[String], target: &str) -> (b: bool)
    ensures
        b == views(files@).contains(target@),
{
    let mut i: usize = 0;
    while i < files.len()
        invariant
            i <= files@.len(),
            forall|j: int| 0 <= j < i ==> files@[j]@ != target@,
        decreases files.len() - i,
    {
        if str_eq(files[i].as_str(), target) {
            assert(views(files@)[i as int] == target@);
            return true;
        }
        i = i + 1;
    }
    proof {
        if views(files@).contains(target@) {
            let j = choose|j: int| 0 <= j < views(files@).len() && views(files@)[j] == target@;
            assert(files@[j]@ == target@);
        }
    }
    false
}

fn link_of(path: &str, line: &[char], idx: usize, files: &[String]) -> (r: Option<DocumentLink>)
    requires
        idx < usize::MAX,
    ensures
        r.deep_view() == link_of_line(path@, line@, idx as int, views(files@)),
{
    let pat = chars_of("import \"");
    proof {
        reveal_strlit("import \"");
    }
    let p = match find_chars(line, pat.as_slice()) {
        None => return None,
        Some(p) => p,
    };
    let ll = line.len();
    proof {
        crate::text::lemma_find_from(line@, "import \""@, 0);
    }
    assert(p + 8 <= ll);
    let start = p + 8;
    let quote = chars_of("\"");
    proof {
        reveal_strlit("\"");
    }
    let ghost rest = line@.subrange(start as int, line@.len() as int);
    let e0 = crate::text::find_chars_from(line, quote.as_slice(), start);
    proof {
        lemma_find_shift(line@, "\""@, start as int, 0);
        crate::text::lemma_find_from(line@, "\""@, start as int);
    }
    let e = match e0 {
        None => return None,
        Some(j) => j - start,
    };
    let raw = string_of_range(line, start, start + e);
    assert(raw@ == rest.subrange(0, e as int));
    let pathc = owned(path);
    let target = resolve(pathc.as_str(), raw.as_str());
    let sb = byte_offset(line, start);
    let whole = byte_offset(line, start + e);
    let eb_chars = chars_of(raw.as_str());
    let eb = byte_offset(eb_chars.as_slice(), e);
    proof {
        assert(eb_chars@.subrange(0, e as int) =~= rest.subrange(0, e as int));
    }
    let status = if files_contain(files, target.as_str()) {
        owned("resolved")
    } else {
        owned("missing")
    };
    let mut id = owned("link:");
    append(&mut id, path);
    append(&mut id, ":");
    push_dec(&mut id, (idx + 1) as u64);
    append(&mut id, ":");
    append(&mut id, target.as_str());
    let col_start = sat_add(sb, 1);
    let col_end = sat_add(sat_add(sb, eb), 1);
    proof {
        lemma_sat_add(byte_len(line@.subrange(0, start as int)) as int, 1);
        lemma_sat_add(
            byte_len(line@.subrange(0, start as int)) as int,
            byte_len(rest.subrange(0, e as int)) as int,
        );
        lemma_sat_add(
            (byte_len(line@.subrange(0, start as int)) + byte_len(rest.subrange(0, e as int))) as int,
            1,
        );
    }
    let link = DocumentLink {
        id,
        file_path: pathc,
        target_path: target,
        line: idx + 1,
        column_start: col_start,
        column_end: col_end,
        status,
    };
    Some(link)
}

/// The document links of a file: one for each line that imports a quoted
/// path, resolved against the file's directory, `resolved` when the target
/// is among `files` and `missing` otherwise.
pub fn imports(path: &str, contents: &str, files: &[String]) -> (r: Vec<DocumentLink>)
    ensures
        r.deep_view() == imports_spec(path@, contents@, views(files@)),
{
    let cc = chars_of(contents);
    let ls = lines_of(cc.as_slice());
    let ghost lsv = lines(contents@);
    let ghost f = |i: int| opt_seq(link_of_line(path@, lsv[i], i, views(files@)));
    let mut r: Vec<DocumentLink> = Vec::new();
    let mut i: usize = 0;
    assert(Seq::new(0, f).flatten() =~= r.deep_view());
    while i < ls.len()
        invariant
            i <= ls@.len(),
            ls@.len() == lsv.len(),
            lsv == lines(contents@),
            forall|k: int| 0 <= k < ls@.len() ==> (#[trigger] ls@[k])@ == lsv[k],
            f == (|i: int| opt_seq(link_of_line(path@, lsv[i], i, views(files@)))),
            r.deep_view() == Seq::new(i as nat, f).flatten(),
        decreases ls.len() - i,
    {
        let ghost old_r = r.deep_view();
        let l = link_of(path, ls[i].as_slice(), i, files);
        assert(ls@[i as int]@ == lsv[i as int]);
        match l {
            Some(link) => {
                r.push(link);
            },
            None => {},
        }
        proof {
            assert(Seq::new((i + 1) as nat, f) =~= Seq::new(i as nat, f).push(f(i as int)));
            Seq::new(i as nat, f).lemma_flatten_push(f(i as int));
            assert(r.deep_view() =~= old_r + f(i as int));
        }
        i = i + 1;
    }
    assert(Seq::new(lsv.len(), f) =~= Seq::new(
        lsv.len(),
        |i: int| opt_seq(link_of_line(path@, lsv[i], i, views(files@))),
    ));
    r
}

// ---------------------------------------------------------------------
// Diagnostics
// ---------------------------------------------------------------------
/// A diagnostic of severity `error`.
pub open spec fn diag_spec(
    path: Seq<char>,
    line: int,
    column: int,
    source: Seq<char>,
    message: Seq<char>,
) -> DiagnosticView {
    DiagnosticView {
        id: "diag:"@ + path + ":"@ + dec(line as nat) + ":"@ + dec(column as nat) + ":"@ + source
            + ":"@ + message,
        file_path: path,
        line: line as usize,
        column: column as usize,
        severity: "error"@,
        message,
        source,
    }
}

/// One `resolver` diagnostic for each missing import.
pub open spec fn missing_diags(path: Seq<char>, links: Seq<DocumentLinkView>) -> Seq<DiagnosticView> {
    Seq::new(
        links.len(),
        |i: int|
            if links[i].status == "missing"@ {
                seq![
                    diag_spec(
                        path,
                        links[i].line as int,
                        links[i].column_start as int,
                        "resolver"@,
                        "Missing import target "@ + links[i].target_path,
                    ),
                ]
            } else {
                Seq::empty()
            },
    ).flatten()
}

/// The one-based byte column of the first occurrence of `pat`, or `1`.
pub open spec fn column_of(line: Seq<char>, pat: Seq<char>) -> int {
    let at = match find(line, pat) {
        Some(i) => i,
        None => 0,
    };
    sat(byte_len(line.subrange(0, at)) + 1int) as int
}

/// The diagnostics that the rules find on one line.
pub open spec fn line_diags(
    path: Seq<char>,
    line: Seq<char>,
    idx: int,
    config: CompilerConfig,
    has_verified_field: bool,
) -> Seq<DiagnosticView> {
    (if contains(line, "TODO_ERROR"@) {
        seq![diag_spec(path, idx + 1, 1, "parser"@, "TODO_ERROR marker"@)]
    } else {
        Seq::empty()
    }) + (if contains(line, "SYNTAX_ERROR"@) {
        seq![diag_spec(path, idx + 1, 1, "parser"@, "SYNTAX_ERROR marker"@)]
    } else {
        Seq::empty()
    }) + (if config == CompilerConfig::Strict && contains(line, "add(1, \"two\")"@) {
        seq![
            diag_spec(
                path,
                idx + 1,
                column_of(line, "add"@),
                "typecheck"@,
                "Type mismatch: add(number, string)"@,
            ),
        ]
    } else {
        Seq::empty()
    }) + (if contains(line, "user.email_verified"@) && !has_verified_field {
        seq![
            diag_spec(
                path,
                idx + 1,
                column_of(line, "email_verified"@),
                "typecheck"@,
                "Unknown field email_verified"@,
            ),
        ]
    } else {
        Seq::empty()
    })
}

/// The diagnostics of a file: missing imports first, then line rules.
pub open spec fn diagnostics_spec(
    path: Seq<char>,
    contents: Seq<char>,
    links: Seq<DocumentLinkView>,
    config: CompilerConfig,
    has_verified_field: bool,
) -> Seq<DiagnosticView> {
    let ls = lines(contents);
    missing_diags(path, links) + Seq::new(
        ls.len(),
        |i: int| line_diags(path, ls[i], i, config, has_verified_field),
    ).flatten()
}

/// Keeps the diagnostics whose message is not `m`.
pub open spec fn dropping(m: Seq<char>) -> spec_fn(DiagnosticView) -> bool {
    |d: DiagnosticView| d.message != m
}

/// The message of a strict-only type mismatch.
pub open spec fn type_mismatch_message() -> Seq<char> {
    "Type mismatch: add(number, string)"@
}

/// The message of the unknown verified field.
pub open spec fn unknown_field_message() -> Seq<char> {
    "Unknown field email_verified"@
}

/// Filtering a flattened sequence filters each part.
#[verifier::spinoff_prover]
proof fn lemma_flatten_filter(ss: Seq<Seq<DiagnosticView>>, tt: Seq<Seq<DiagnosticView>>, p: spec_fn(DiagnosticView) -> bool)
    requires
        tt.len() == ss.len(),
        forall|i: int| 0 <= i < ss.len() ==> #[trigger] tt[i] == ss[i].filter(p),
    ensures
        ss.flatten().filter(p) == tt.flatten(),
    decreases ss.len(),
{
    broadcast use Seq::filter_distributes_over_add, Seq::lemma_flatten_push;

    if ss.len() == 0 {
        assert(ss.flatten() =~= Seq::<DiagnosticView>::empty());
        assert(tt.flatten() =~= Seq::<DiagnosticView>::empty());
        assert(Seq::<DiagnosticView>::empty().filter(p) =~= Seq::<DiagnosticView>::empty()) by {
            reveal(Seq::filter);
        }
    } else {
        let s0 = ss.drop_last();
        let t0 = tt.drop_last();
        assert forall|i: int| 0 <= i < s0.len() implies #[trigger] t0[i] == s0[i].filter(p) by {
            assert(t0[i] == tt[i] && s0[i] == ss[i]);
        }
        lemma_flatten_filter(s0, t0, p);
        assert(s0.push(ss.last()) =~= ss);
        assert(t0.push(tt.last()) =~= tt);
        assert(ss.flatten() == s0.flatten() + ss.last());
        assert(tt.flatten() == t0.flatten() + tt.last());
        assert(tt.last() == ss.last().filter(p));
    }
}

/// A one-element sequence keeps its element exactly when it passes.
#[verifier::spinoff_prover]
proof fn lemma_filter_one(d: DiagnosticView, p: spec_fn(DiagnosticView) -> bool)
    ensures
        seq![d].filter(p) == (if p(d) { seq![d] } else { Seq::empty() }),
{
    broadcast use Seq::lemma_filter_push;

    let e = Seq::<DiagnosticView>::empty();
    assert(e.filter(p) =~= e) by {
        reveal(Seq::filter);
    }
    assert(e.push(d) =~= seq![d]);
    assert(e.push(d).filter(p) == if p(d) { e.filter(p).push(d) } else { e.filter(p) });
}

/// The loose configuration finds on a line what the strict one finds,
/// less the type mismatch; a workspace that declares the verified field
/// finds what one that does not finds, less the unknown field.
#[verifier::spinoff_prover]
proof fn lemma_line_rules(path: Seq<char>, line: Seq<char>, idx: int, config: CompilerConfig, has: bool)
    ensures
        line_diags(path, line, idx, CompilerConfig::Loose, has) == line_diags(
            path,
            line,
            idx,
            CompilerConfig::Strict,
            has,
        ).filter(dropping(type_mismatch_message())),
        line_diags(path, line, idx, config, true) == line_diags(path, line, idx, config, false).filter(
            dropping(unknown_field_message()),
        ),
{
    broadcast use Seq::filter_distributes_over_add;

    reveal_strlit("TODO_ERROR marker");
    reveal_strlit("SYNTAX_ERROR marker");
    reveal_strlit("Type mismatch: add(number, string)");
    reveal_strlit("Unknown field email_verified");
    assert("TODO_ERROR marker"@.len() == 17);
    assert("SYNTAX_ERROR marker"@.len() == 19);
    assert("Type mismatch: add(number, string)"@.len() == 34);
    assert("Unknown field email_verified"@.len() == 28);
    let todo = diag_spec(path, idx + 1, 1, "parser"@, "TODO_ERROR marker"@);
    let syntax = diag_spec(path, idx + 1, 1, "parser"@, "SYNTAX_ERROR marker"@);
    let ty = diag_spec(path, idx + 1, column_of(line, "add"@), "typecheck"@, "Type mismatch: add(number, string)"@);
    let field = diag_spec(
        path,
        idx + 1,
        column_of(line, "email_verified"@),
        "typecheck"@,
        "Unknown field email_verified"@,
    );
    let e = Seq::<DiagnosticView>::empty();
    let pt = dropping(type_mismatch_message());
    let pf = dropping(unknown_field_message());
    assert(e.filter(pt) =~= e && e.filter(pf) =~= e) by {
        reveal(Seq::filter);
    }
    lemma_filter_one(todo, pt);
    lemma_filter_one(syntax, pt);
    lemma_filter_one(ty, pt);
    lemma_filter_one(field, pt);
    lemma_filter_one(todo, pf);
    lemma_filter_one(syntax, pf);
    lemma_filter_one(ty, pf);
    lemma_filter_one(field, pf);
}

/// Missing-import errors pass both filters.
#[verifier::spinoff_prover]
proof fn lemma_missing_kept(path: Seq<char>, links: Seq<DocumentLinkView>, m: Seq<char>)
    requires
        m.len() > 0,
        m[0] != 'M',
    ensures
        missing_diags(path, links).filter(dropping(m)) == missing_diags(path, links),
{
    let miss = Seq::new(
        links.len(),
        |i: int|
            if links[i].status == "missing"@ {
                seq![
                    diag_spec(
                        path,
                        links[i].line as int,
                        links[i].column_start as int,
                        "resolver"@,
                        "Missing import target "@ + links[i].target_path,
                    ),
                ]
            } else {
                Seq::empty()
            },
    );
    assert(missing_diags(path, links) == miss.flatten());
    reveal_strlit("Missing import target ");
    let p = dropping(m);
    assert forall|i: int| 0 <= i < miss.len() implies #[trigger] miss[i] == miss[i].filter(p) by {
        if links[i].status == "missing"@ {
            let msg = "Missing import target "@ + links[i].target_path;
            assert(msg[0] == 'M');
            let d = diag_spec(path, links[i].line as int, links[i].column_start as int, "resolver"@, msg);
            assert(p(d));
            lemma_filter_one(d, p);
        } else {
            let e = Seq::<DiagnosticView>::empty();
            assert(e.filter(p) =~= e) by {
                reveal(Seq::filter);
            }
        }
    }
    lemma_flatten_filter(miss, miss, p);
}

/// The line rules of two settings, when each line's findings under the
/// second are those under the first that pass `p`.
#[verifier::spinoff_prover]
proof fn lemma_lines_filter(
    path: Seq<char>,
    ls: Seq<Seq<char>>,
    c1: CompilerConfig,
    h1: bool,
    c2: CompilerConfig,
    h2: bool,
    p: spec_fn(DiagnosticView) -> bool,
)
    requires
        forall|i: int| 0 <= i < ls.len() ==> #[trigger] line_diags(path, ls[i], i, c2, h2) == line_diags(
            path,
            ls[i],
            i,
            c1,
            h1,
        ).filter(p),
    ensures
        Seq::new(ls.len(), |i: int| line_diags(path, ls[i], i, c1, h1)).flatten().filter(p) == Seq::new(
            ls.len(),
            |i: int| line_diags(path, ls[i], i, c2, h2),
        ).flatten(),
{
    let a = Seq::new(ls.len(), |i: int| line_diags(path, ls[i], i, c1, h1));
    let b = Seq::new(ls.len(), |i: int| line_diags(path, ls[i], i, c2, h2));
    assert forall|i: int| 0 <= i < a.len() implies #[trigger] b[i] == a[i].filter(p) by {
        assert(line_diags(path, ls[i], i, c2, h2) == line_diags(path, ls[i], i, c1, h1).filter(p));
    }
    lemma_flatten_filter(a, b, p);
}

/// The diagnostics of a file under the loose configuration are those
/// under the strict one without the type mismatches, in the same order;
/// in a workspace that declares the verified field they are those of one
/// that does not, without the unknown-field errors, in the same order.
#[verifier::spinoff_prover]
pub proof fn law_configuration_and_field_rules(
    path: Seq<char>,
    contents: Seq<char>,
    links: Seq<DocumentLinkView>,
    config: CompilerConfig,
    has: bool,
)
    ensures
        diagnostics_spec(path, contents, links, CompilerConfig::Loose, has) == diagnostics_spec(
            path,
            contents,
            links,
            CompilerConfig::Strict,
            has,
        ).filter(dropping(type_mismatch_message())),
        diagnostics_spec(path, contents, links, config, true) == diagnostics_spec(
            path,
            contents,
            links,
            config,
            false,
        ).filter(dropping(unknown_field_message())),
{
    broadcast use Seq::filter_distributes_over_add;

    reveal_strlit("Type mismatch: add(number, string)");
    reveal_strlit("Unknown field email_verified");
    assert(type_mismatch_message()[0] == 'T' && type_mismatch_message().len() > 0);
    assert(unknown_field_message()[0] == 'U' && unknown_field_message().len() > 0);
    let ls = lines(contents);
    let pt = dropping(type_mismatch_message());
    let pf = dropping(unknown_field_message());
    lemma_missing_kept(path, links, type_mismatch_message());
    lemma_missing_kept(path, links, unknown_field_message());
    assert forall|i: int| 0 <= i < ls.len() implies #[trigger] line_diags(path, ls[i], i, CompilerConfig::Loose, has)
        == line_diags(path, ls[i], i, CompilerConfig::Strict, has).filter(pt) by {
        lemma_line_rules(path, ls[i], i, config, has);
    }
    lemma_lines_filter(path, ls, CompilerConfig::Strict, has, CompilerConfig::Loose, has, pt);
    assert forall|i: int| 0 <= i < ls.len() implies #[trigger] line_diags(path, ls[i], i, config, true)
        == line_diags(path, ls[i], i, config, false).filter(pf) by {
        lemma_line_rules(path, ls[i], i, config, true);
    }
    lemma_lines_filter(path, ls, config, false, config, true, pf);
}

fn diag(path: &str, line: usize, column: usize, source: &str, message: String) -> (d: Diagnostic)
    ensures
        d.deep_view() == diag_spec(path@, line as int, column as int, source@, message@),
{
    let mut id = owned("diag:");
    append(&mut id, path);
    append(&mut id, ":");
    push_dec(&mut id, line as u64);
    append(&mut id, ":");
    push_dec(&mut id, column as u64);
    append(&mut id, ":");
    append(&mut id, source);
    append(&mut id, ":");
    append(&mut id, message.as_str());
    Diagnostic {
        id,
        file_path: owned(path),
        line,
        column,
        severity: owned("error"),
        message,
        source: owned(source),
    }
}

fn column_in(line: &[char], pat: &str) -> (c: usize)
    ensures
        c as int == column_of(line@, pat@),
{
    let pc = chars_of(pat);
    let at = match find_chars(line, pc.as_slice()) {
        Some(i) => i,
        None => 0,
    };
    proof {
        crate::text::lemma_find_from(line@, pat@, 0);
    }
    let b = byte_offset(line, at);
    proof {
        lemma_sat_add(byte_len(line@.subrange(0, at as int)) as int, 1);
    }
    sat_add(b, 1)
}

fn line_has(line: &[char], pat: &str) -> (b: bool)
    ensures
        b == contains(line@, pat@),
{
    let pc = chars_of(pat);
    contains_chars(line, pc.as_slice())
}

fn diags_of_line(
    path: &str,
    line: &[char],
    idx: usize,
    config: CompilerConfig,
    has_verified_field: bool,
) -> (r: Vec<Diagnostic>)
    requires
        idx < usize::MAX,
    ensures
        r.deep_view() == line_diags(path@, line@, idx as int, config, has_verified_field),
{
    let mut r: Vec<Diagnostic> = Vec::new();
    let ghost p = path@;
    let ghost l = line@;
    let ghost i = idx as int;
    if line_has(line, "TODO_ERROR") {
        r.push(diag(path, idx + 1, 1, "parser", owned("TODO_ERROR marker")));
    }
    let ghost r1 = r.deep_view();
    if line_has(line, "SYNTAX_ERROR") {
        r.push(diag(path, idx + 1, 1, "parser", owned("SYNTAX_ERROR marker")));
    }
    let ghost r2 = r.deep_view();
    let strict = match config {
        CompilerConfig::Strict => true,
        CompilerConfig::Loose => false,
    };
    if strict && line_has(line, "add(1, \"two\")") {
        let col = column_in(line, "add");
        r.push(diag(path, idx + 1, col, "typecheck", owned("Type mismatch: add(number, string)")));
    }
    let ghost r3 = r.deep_view();
    if line_has(line, "user.email_verified") && !has_verified_field {
        let col = column_in(line, "email_verified");
        r.push(diag(path, idx + 1, col, "typecheck", owned("Unknown field email_verified")));
    }
    proof {
        let a = if contains(l, "TODO_ERROR"@) {
            seq![diag_spec(p, i + 1, 1, "parser"@, "TODO_ERROR marker"@)]
        } else {
            Seq::<DiagnosticView>::empty()
        };
        assert(r1 =~= a);
        let b = if contains(l, "SYNTAX_ERROR"@) {
            seq![diag_spec(p, i + 1, 1, "parser"@, "SYNTAX_ERROR marker"@)]
        } else {
            Seq::<DiagnosticView>::empty()
        };
        assert(r2 =~= a + b);
        let c = if config == CompilerConfig::Strict && contains(l, "add(1, \"two\")"@) {
            seq![
                diag_spec(
                    p,
                    i + 1,
                    column_of(l, "add"@),
                    "typecheck"@,
                    "Type mismatch: add(number, string)"@,
                ),
            ]
        } else {
            Seq::<DiagnosticView>::empty()
        };
        assert(r3 =~= a + b + c);
        assert(r.deep_view() =~= line_diags(p, l, i, config, has_verified_field));
    }
    r
}

/// The diagnostics of a file: a `resolver` error for each missing import,
/// then for each line a `parser` error for each `TODO_ERROR` and
/// `SYNTAX_ERROR` marker, a `typecheck` error for `add(1, "two")` under the
/// strict configuration, and one for `user.email_verified` unless some
/// file declares that field.
pub fn diagnostics(
    path: &str,
    contents: &str,
    links: &[DocumentLink],
    config: &CompilerConfig,
    has_verified_field: bool,
) -> (r: Vec<Diagnostic>)
    ensures
        r.deep_view() == diagnostics_spec(
            path@,
            contents@,
            links@.map_values(|l: DocumentLink| l.deep_view()),
            *config,
            has_verified_field,
        ),
{
    let ghost lv = links@.map_values(|l: DocumentLink| l.deep_view());
    let ghost fm = |i: int|
        if lv[i].status == "missing"@ {
            seq![
                diag_spec(
                    path@,
                    lv[i].line as int,
                    lv[i].column_start as int,
                    "resolver"@,
                    "Missing import target "@ + lv[i].target_path,
                ),
            ]
        } else {
            Seq::<DiagnosticView>::empty()
        };
    let mut r: Vec<Diagnostic> = Vec::new();
    let mut i: usize = 0;
    assert(Seq::new(0, fm).flatten() =~= r.deep_view());
    while i < links.len()
        invariant
            i <= links@.len(),
            lv == links@.map_values(|l: DocumentLink| l.deep_view()),
            fm == (|i: int|
                if lv[i].status == "missing"@ {
                    seq![
                        diag_spec(
                            path@,
                            lv[i].line as int,
                            lv[i].column_start as int,
                            "resolver"@,
                            "Missing import target "@ + lv[i].target_path,
                        ),
                    ]
                } else {
                    Seq::<DiagnosticView>::empty()
                }),
            r.deep_view() == Seq::new(i as nat, fm).flatten(),
        decreases links.len() - i,
    {
        let ghost old_r = r.deep_view();
        let link = &links[i];
        if str_eq(link.status.as_str(), "missing") {
            let mut msg = owned("Missing import target ");
            append(&mut msg, link.target_path.as_str());
            r.push(diag(path, link.line, link.column_start, "resolver", msg));
        }
        proof {
            assert(Seq::new((i + 1) as nat, fm) =~= Seq::new(i as nat, fm).push(fm(i as int)));
            Seq::new(i as nat, fm).lemma_flatten_push(fm(i as int));
            assert(r.deep_view() =~= old_r + fm(i as int));
        }
        i = i + 1;
    }
    assert(Seq::new(lv.len(), fm).flatten() == missing_diags(path@, lv)) by {
        assert(Seq::new(lv.len(), fm) =~= Seq::new(
            lv.len(),
            |i: int|
                if lv[i].status == "missing"@ {
                    seq![
                        diag_spec(
                            path@,
                            lv[i].line as int,
                            lv[i].column_start as int,
                            "resolver"@,
                            "Missing import target "@ + lv[i].target_path,
                        ),
                    ]
                } else {
                    Seq::empty()
                },
        ));
    }
    let ghost head = r.deep_view();
    let cc = chars_of(contents);
    let ls = lines_of(cc.as_slice());
    let ghost lsv = lines(contents@);
    let ghost g = |i: int| line_diags(path@, lsv[i], i, *config, has_verified_field);
    let mut k: usize = 0;
    assert(head + Seq::new(0, g).flatten() =~= r.deep_view());
    while k < ls.len()
        invariant
            k <= ls@.len(),
            ls@.len() == lsv.len(),
            lsv == lines(contents@),
            forall|j: int| 0 <= j < ls@.len() ==> (#[trigger] ls@[j])@ == lsv[j],
            g == (|i: int| line_diags(path@, lsv[i], i, *config, has_verified_field)),
            r.deep_view() == head + Seq::new(k as nat, g).flatten(),
        decreases ls.len() - k,
    {
        let ghost old_r = r.deep_view();
        assert(ls@[k as int]@ == lsv[k as int]);
        let mut ds = diags_of_line(path, ls[k].as_slice(), k, *config, has_verified_field);
        let ghost dsv = ds.deep_view();
        r.append(&mut ds);
        proof {
            assert(Seq::new((k + 1) as nat, g) =~= Seq::new(k as nat, g).push(g(k as int)));
            Seq::new(k as nat, g).lemma_flatten_push(g(k as int));
            assert(r.deep_view() =~= old_r + dsv);
        }
        k = k + 1;
    }
    assert(Seq::new(lsv.len(), g) =~= Seq::new(
        lsv.len(),
        |i: int| line_diags(path@, lsv[i], i, *config, has_verified_field),
    ));
    r
}

// ---------------------------------------------------------------------
// Semantic tokens
// ---------------------------------------------------------------------
/// A semantic token `width` bytes wide.
pub open spec fn tok_spec(
    path: Seq<char>,
    line: int,
    column: int,
    width: int,
    token_type: Seq<char>,
) -> SemanticTokenView {
    SemanticTokenView {
        id: "tok:"@ + path + ":"@ + dec(line as nat) + ":"@ + dec(column as nat) + ":"@
            + token_type,
        file_path: path,
        line: line as usize,
        column_start: column as usize,
        column_end: sat(column + width),
        token_type,
    }
}

/// The token for the first occurrence of a word on a line, if any.
pub open spec fn word_token(
    path: Seq<char>,
    line: Seq<char>,
    idx: int,
    word: Seq<char>,
    token_type: Seq<char>,
) -> Seq<SemanticTokenView> {
    match find(line, word) {
        Some(s) => seq![
            tok_spec(
                path,
                idx + 1,
                sat(byte_len(line.subrange(0, s)) + 1int) as int,
                word.len() as int,
                token_type,
            ),
        ],
        None => Seq::empty(),
    }
}

/// The token for the first quoted string on a line, if any.
pub open spec fn string_token(path: Seq<char>, line: Seq<char>, idx: int) -> Seq<SemanticTokenView> {
    match find(line, "\""@) {
        Some(st) => {
            let rest = line.subrange(st + 1, line.len() as int);
            match find(rest, "\""@) {
                Some(en) => seq![
                    tok_spec(
                        path,
                        idx + 1,
                        sat(byte_len(line.subrange(0, st)) + 1int) as int,
                        sat(byte_len(rest.subrange(0, en)) + 2int) as int,
                        "string"@,
                    ),
                ],
                None => Seq::empty(),
            }
        },
        None => Seq::empty(),
    }
}

/// The tokens of one line: keywords and markers in a fixed order, then
/// the first quoted string.
pub open spec fn line_tokens(path: Seq<char>, line: Seq<char>, idx: int) -> Seq<SemanticTokenView> {
    word_token(path, line, idx, "module"@, "keyword"@) + word_token(
        path,
        line,
        idx,
        "import"@,
        "keyword"@,
    ) + word_token(path, line, idx, "let"@, "keyword"@) + word_token(
        path,
        line,
        idx,
        "fn"@,
        "keyword"@,
    ) + word_token(path, line, idx, "type"@, "keyword"@) + word_token(
        path,
        line,
        idx,
        "TODO_ERROR"@,
        "error"@,
    ) + word_token(path, line, idx, "SYNTAX_ERROR"@, "error"@) + string_token(path, line, idx)
}

/// The tokens of a file, line by line.
pub open spec fn semantic_tokens_spec(path: Seq<char>, contents: Seq<char>) -> Seq<
    SemanticTokenView,
> {
    let ls = lines(contents);
    Seq::new(ls.len(), |i: int| line_tokens(path, ls[i], i)).flatten()
}

fn token(path: &str, line: usize, column: usize, width: usize, token_type: &str) -> (t:
    SemanticToken)
    ensures
        t.deep_view() == tok_spec(path@, line as int, column as int, width as int, token_type@),
{
    let mut id = owned("tok:");
    append(&mut id, path);
    append(&mut id, ":");
    push_dec(&mut id, line as u64);
    append(&mut id, ":");
    push_dec(&mut id, column as u64);
    append(&mut id, ":");
    append(&mut id, token_type);
    SemanticToken {
        id,
        file_path: owned(path),
        line,
        column_start: column,
        column_end: sat_add(column, width),
        token_type: owned(token_type),
    }
}

fn push_word(
    toks: &mut Vec<SemanticToken>,
    path: &str,
    line: &[char],
    idx: usize,
    word: &str,
    token_type: &str,
)
    requires
        idx < usize::MAX,
    ensures
        final(toks).deep_view() == old(toks).deep_view() + word_token(
            path@,
            line@,
            idx as int,
            word@,
            token_type@,
        ),
{
    let wc = chars_of(word);
    match find_chars(line, wc.as_slice()) {
        Some(st) => {
            proof {
                crate::text::lemma_find_from(line@, word@, 0);
            }
            let b = byte_offset(line, st);
            proof {
                lemma_sat_add(byte_len(line@.subrange(0, st as int)) as int, 1);
            }
            toks.push(token(path, idx + 1, sat_add(b, 1), wc.len(), token_type));
        },
        None => {},
    }
    assert(final(toks).deep_view() =~= old(toks).deep_view() + word_token(
        path@,
        line@,
        idx as int,
        word@,
        token_type@,
    ));
}

fn push_string(toks: &mut Vec<SemanticToken>, path: &str, line: &[char], idx: usize)
    requires
        idx < usize::MAX,
    ensures
        final(toks).deep_view() == old(toks).deep_view() + string_token(path@, line@, idx as int),
{
    let quote = chars_of("\"");
    let ll = line.len();
    match find_chars(line, quote.as_slice()) {
        Some(st) => {
            proof {
                crate::text::lemma_find_from(line@, "\""@, 0);
                reveal_strlit("\"");
            }
            assert(st + 1 <= ll);
            let found = crate::text::find_chars_from(line, quote.as_slice(), st + 1);
            proof {
                lemma_find_shift(line@, "\""@, st + 1, 0);
                crate::text::lemma_find_from(line@, "\""@, st + 1);
            }
            match found {
                Some(j) => {
                    let en = j - (st + 1);
                    let ghost rest = line@.subrange(st + 1, line@.len() as int);
                    let b = byte_offset(line, st);
                    let rc = string_of_range(line, st + 1, j);
                    let rcc = chars_of(rc.as_str());
                    assert(rcc@ =~= rest.subrange(0, en as int));
                    let eb = byte_offset(rcc.as_slice(), en);
                    assert(rcc@.subrange(0, en as int) =~= rcc@);
                    proof {
                        lemma_sat_add(byte_len(line@.subrange(0, st as int)) as int, 1);
                        lemma_sat_add(byte_len(rest.subrange(0, en as int)) as int, 2);
                    }
                    toks.push(token(path, idx + 1, sat_add(b, 1), sat_add(eb, 2), "string"));
                },
                None => {},
            }
        },
        None => {},
    }
    assert(final(toks).deep_view() =~= old(toks).deep_view() + string_token(
        path@,
        line@,
        idx as int,
    ));
}

fn tokens_of_line(path: &str, line: &[char], k: usize) -> (r: Vec<SemanticToken>)
    requires
        k < usize::MAX,
    ensures
        r.deep_view() == line_tokens(path@, line@, k as int),
{
    let mut r: Vec<SemanticToken> = Vec::new();
    push_word(&mut r, path, line, k, "module", "keyword");
    push_word(&mut r, path, line, k, "import", "keyword");
    push_word(&mut r, path, line, k, "let", "keyword");
    push_word(&mut r, path, line, k, "fn", "keyword");
    push_word(&mut r, path, line, k, "type", "keyword");
    push_word(&mut r, path, line, k, "TODO_ERROR", "error");
    push_word(&mut r, path, line, k, "SYNTAX_ERROR", "error");
    push_string(&mut r, path, line, k);
    assert(r.deep_view() =~= line_tokens(path@, line@, k as int));
    r
}

/// The semantic tokens of a file: on each line, the first `module`,
/// `import`, `let`, `fn` and `type` (keywords), `TODO_ERROR` and
/// `SYNTAX_ERROR` (errors), then the first quoted string.
pub fn semantic_tokens(path: &str, contents: &str) -> (r: Vec<SemanticToken>)
    ensures
        r.deep_view() == semantic_tokens_spec(path@, contents@),
{
    let cc = chars_of(contents);
    let ls = lines_of(cc.as_slice());
    let ghost lsv = lines(contents@);
    let ghost g = |i: int| line_tokens(path@, lsv[i], i);
    let mut r: Vec<SemanticToken> = Vec::new();
    let mut k: usize = 0;
    assert(Seq::new(0, g).flatten() =~= r.deep_view());
    while k < ls.len()
        invariant
            k <= ls@.len(),
            ls@.len() == lsv.len(),
            lsv == lines(contents@),
            forall|j: int| 0 <= j < ls@.len() ==> (#[trigger] ls@[j])@ == lsv[j],
            g == (|i: int| line_tokens(path@, lsv[i], i)),
            r.deep_view() == Seq::new(k as nat, g).flatten(),
        decreases ls.len() - k,
    {
        let ghost old_r = r.deep_view();
        assert(ls@[k as int]@ == lsv[k as int]);
        let mut lt = tokens_of_line(path, ls[k].as_slice(), k);
        let ghost ltv = lt.deep_view();
        r.append(&mut lt);
        proof {
            assert(r.deep_view() =~= old_r + ltv);
            assert(Seq::new((k + 1) as nat, g) =~= Seq::new(k as nat, g).push(g(k as int)));
            Seq::new(k as nat, g).lemma_flatten_push(g(k as int));
            assert(r.deep_view() =~= old_r + g(k as int));
        }
        k = k + 1;
    }
    assert(Seq::new(lsv.len(), g) =~= Seq::new(lsv.len(), |i: int| line_tokens(path@, lsv[i], i)));
    r
}

} // verus!
