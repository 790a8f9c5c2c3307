//! Full recompute of the derived state from canonical inputs, and the
//! small builders of diffs, frames and causes.
use vstd::prelude::*;
use crate::dup::Dup;
use crate::observatory::language::{
    diagnostics, diagnostics_spec, imports, imports_spec, semantic_tokens, semantic_tokens_spec,
};
use crate::observatory::types::{
    AuditCause, AuditCauseView, CanonicalInputs, CanonicalInputsView, CollectionDiff, CollectionDiffView,
    CompilerConfig, Diagnostic, DocumentLink, DocumentLinkView, FileRecord, FileRecordView,
    FullState, InputChange, InputChangeView, OutputFrame, OutputFrameView, Revision,
    SemanticToken,
};
use crate::strmap::{sort_seq, sort_strings, sorted, views, StrMap, StrSet};
use crate::text::{append, contains, dec, owned, starts_with, str_contains, str_starts_with};

verus! {

// ---------------------------------------------------------------------
// Source files
// ---------------------------------------------------------------------
/// A file takes part in the source graph unless it is generated and
/// generated files are off.
pub open spec fn selected(f: FileRecordView, generated_enabled: bool) -> bool {
    !f.generated || generated_enabled
}

/// The paths of the selected records, in the given order.
pub open spec fn selected_paths(records: Seq<FileRecordView>, generated_enabled: bool) -> Seq<
    Seq<char>,
>
    decreases records.len(),
{
    if records.len() == 0 {
        Seq::empty()
    } else {
        let rest = selected_paths(records.drop_last(), generated_enabled);
        if selected(records.last(), generated_enabled) {
            rest.push(records.last().path)
        } else {
            rest
        }
    }
}

/// The source files: the paths of the selected records, sorted.
pub open spec fn source_files_spec(files: &StrMap<FileRecord>, generated_enabled: bool) -> Seq<
    Seq<char>,
> {
    sort_seq(selected_paths(files.vals(), generated_enabled))
}

/// The paths of the files that take part in the source graph, sorted: all
/// files, less the generated ones when generated files are off.
pub fn source_files(inputs: &CanonicalInputs) -> (r: Vec<String>)
    ensures
        views(r@) == source_files_spec(&inputs.files, inputs.generated_files_enabled),
{
    let mut paths: Vec<String> = Vec::new();
    let mut i: usize = 0;
    inputs.files.lemma_keys();
    while i < inputs.files.len()
        invariant
            i <= inputs.files.vals().len(),
            inputs.files.vals().len() == inputs.files.keys().len(),
            views(paths@) == selected_paths(
                inputs.files.vals().take(i as int),
                inputs.generated_files_enabled,
            ),
        decreases inputs.files.keys().len() - i,
    {
        let f = inputs.files.val_at(i);
        let ghost old_p = views(paths@);
        if !f.generated || inputs.generated_files_enabled {
            paths.push(f.path.dup());
            assert(views(paths@) =~= old_p.push(f.path@));
        }
        assert(inputs.files.vals().take(i + 1).drop_last() =~= inputs.files.vals().take(i as int));
        i = i + 1;
    }
    assert(inputs.files.vals().take(i as int) =~= inputs.files.vals());
    sort_strings(paths)
}

// ---------------------------------------------------------------------
// Diffs
// ---------------------------------------------------------------------
/// The elements of a sequence of strings, as a set.
pub open spec fn string_set(v: Seq<String>) -> Set<Seq<char>> {
    views(v).to_set()
}

/// The set difference of two string sequences, sorted.
pub fn sorted_difference(a: &[String], b: &[String]) -> (r: Vec<String>)
    ensures
        sorted(views(r@)),
        views(r@).to_set() == string_set(a@).difference(string_set(b@)),
{
    let sa = StrSet::from_strings(a);
    let sb = StrSet::from_strings(b);
    sa.difference(&sb)
}

/// Whether `d` is the diff of a collection from `before` to `after`: what
/// `after` has that `before` lacks, and the reverse, each in increasing
/// order, with nothing updated.
pub open spec fn diff_of(
    collection: Seq<char>,
    before: Seq<Seq<char>>,
    after: Seq<Seq<char>>,
    d: CollectionDiffView,
) -> bool {
    &&& d.collection == collection
    &&& sorted(d.added)
    &&& d.added.to_set() == after.to_set().difference(before.to_set())
    &&& sorted(d.removed)
    &&& d.removed.to_set() == before.to_set().difference(after.to_set())
    &&& d.updated.len() == 0
}

/// The structural diff of two versions of a collection: what `after` has
/// that `before` lacks, and the reverse, each sorted without repeats.
pub fn diff_vec(collection: &str, before: &[String], after: &[String]) -> (r: CollectionDiff)
    ensures
        diff_of(collection@, views(before@), views(after@), r.deep_view()),
        r.collection@ == collection@,
        sorted(views(r.added@)),
        views(r.added@).to_set() == string_set(after@).difference(string_set(before@)),
        sorted(views(r.removed@)),
        views(r.removed@).to_set() == string_set(before@).difference(string_set(after@)),
        r.updated@.len() == 0,
{
    let r = CollectionDiff {
        collection: owned(collection),
        added: sorted_difference(after, before),
        removed: sorted_difference(before, after),
        updated: Vec::new(),
    };
    assert(r.deep_view().added =~= views(r.added@));
    assert(r.deep_view().removed =~= views(r.removed@));
    r
}

/// A record of one input changing from `before` to `after`.
pub fn input_change(key: &str, before: &str, after: &str) -> (r: InputChange)
    ensures
        r.deep_view() == (InputChangeView { key: key@, before: before@, after: after@ }),
{
    InputChange { key: owned(key), before: owned(before), after: owned(after) }
}

// ---------------------------------------------------------------------
// Causes and frames
// ---------------------------------------------------------------------
/// The dependency path every cause walks.
pub open spec fn cause_path() -> Seq<Seq<char>> {
    seq![
        "canonical inputs"@,
        "sourceFiles"@,
        "moduleGraph"@,
        "resourcePlan/outputFrames"@,
    ]
}

/// The audit cause built by `cause`.
pub open spec fn cause_spec(
    input_key: Seq<char>,
    after: Seq<char>,
    changed: Seq<char>,
    reason: Seq<char>,
) -> AuditCauseView {
    AuditCauseView {
        input_key,
        before: "previous committed state"@,
        after,
        changed_node: changed,
        collection: "sourceFiles/moduleGraph/outputModel"@,
        added: Seq::empty(),
        removed: Seq::empty(),
        updated: Seq::empty(),
        reason,
        path: cause_path(),
    }
}

/// Why something happened: which input, the new state, the node that
/// changed and a reason, along the fixed dependency path.
pub fn cause(input_key: &str, after: &str, changed: &str, reason: &str) -> (r: AuditCause)
    ensures
        r.deep_view() == cause_spec(input_key@, after@, changed@, reason@),
{
    let mut path: Vec<String> = Vec::new();
    path.push(owned("canonical inputs"));
    path.push(owned("sourceFiles"));
    path.push(owned("moduleGraph"));
    path.push(owned("resourcePlan/outputFrames"));
    let r = AuditCause {
        input_key: owned(input_key),
        before: owned("previous committed state"),
        after: owned(after),
        changed_node: owned(changed),
        collection: owned("sourceFiles/moduleGraph/outputModel"),
        added: Vec::new(),
        removed: Vec::new(),
        updated: Vec::new(),
        reason: owned(reason),
        path,
    };
    assert(r.path.deep_view() =~= cause_path());
    assert(r.added.deep_view() =~= Seq::<Seq<char>>::empty());
    assert(r.removed.deep_view() =~= Seq::<Seq<char>>::empty());
    assert(r.updated.deep_view() =~= Seq::<Seq<char>>::empty());
    r
}

/// The scope that owns a file's outputs.
pub open spec fn file_scope(path: Seq<char>) -> Seq<char> {
    "FileScope("@ + path + ")"@
}

/// The empty frame built by `frame`.
pub open spec fn frame_spec(kind: Seq<char>, path: Seq<char>, revision: Revision, label: Seq<char>) -> OutputFrameView {
    OutputFrameView {
        kind,
        output_key: kind + ":"@ + path,
        scope: file_scope(path),
        revision,
        file_path: Some(path),
        diagnostics: Seq::empty(),
        links: Seq::empty(),
        tokens: Seq::empty(),
        status: None,
        cause: cause_spec(
            "files"@,
            label,
            kind,
            "output lifecycle follows current source graph"@,
        ),
    }
}

/// The scope label of a file.
pub fn file_scope_of(path: &str) -> (r: String)
    ensures
        r@ == file_scope(path@),
{
    let mut s = owned("FileScope(");
    append(&mut s, path);
    append(&mut s, ")");
    s
}

/// An output frame of the given kind for a file, with no payload yet.
pub fn frame(kind: &str, path: &str, revision: Revision, label: &str) -> (r: OutputFrame)
    ensures
        r.deep_view() == frame_spec(kind@, path@, revision, label@),
{
    let mut output_key = owned(kind);
    append(&mut output_key, ":");
    append(&mut output_key, path);
    let r = OutputFrame {
        kind: owned(kind),
        output_key,
        scope: file_scope_of(path),
        revision,
        file_path: Some(owned(path)),
        diagnostics: Vec::new(),
        links: Vec::new(),
        tokens: Vec::new(),
        status: None,
        cause: cause("files", label, kind, "output lifecycle follows current source graph"),
    };
    assert(r.diagnostics.deep_view() =~= Seq::<crate::observatory::types::DiagnosticView>::empty());
    assert(r.links.deep_view() =~= Seq::<DocumentLinkView>::empty());
    assert(r.tokens.deep_view() =~= Seq::<crate::observatory::types::SemanticTokenView>::empty());
    r
}

// ---------------------------------------------------------------------
// Full recompute
// ---------------------------------------------------------------------
/// Some file declares the `email_verified: bool` field.
pub open spec fn declares_verified_field(records: Seq<FileRecordView>) -> bool {
    exists|i: int| 0 <= i < records.len() && contains(#[trigger] records[i].contents, "email_verified: bool"@)
}

/// The analysis revision of a file, the inputs' revision by default.
pub open spec fn revision_of(revisions: Map<Seq<char>, u32>, p: Seq<char>, default: u32) -> u32 {
    if revisions.contains_key(p) {
        revisions[p]
    } else {
        default
    }
}

/// The watcher resource of a file.
pub open spec fn watch_key(p: Seq<char>) -> Seq<char> {
    if starts_with(p, "generated/"@) {
        "GeneratedFileWatch("@ + p + ")"@
    } else {
        "WatchFile("@ + p + ")"@
    }
}

/// The analysis job resource of a file at a revision.
pub open spec fn job_key(p: Seq<char>, rev: u32) -> Seq<char> {
    "AnalysisJob("@ + p + "@rev"@ + dec(rev as nat) + ")"@
}

/// The workspace index resource of a branch.
pub open spec fn index_key(branch: Seq<char>) -> Seq<char> {
    "WorkspaceIndex("@ + branch + ")"@
}

/// An import edge.
pub open spec fn edge(l: DocumentLinkView) -> Seq<char> {
    l.file_path + " -> "@ + l.target_path
}

/// A module graph node.
pub open spec fn node(p: Seq<char>) -> Seq<char> {
    "node:"@ + p
}

/// The full recompute oracle: what `full_recompute` computes.
pub open spec fn full_recompute_spec(
    inputs: &CanonicalInputs,
    revisions: &StrMap<u32>,
    r: &FullState,
) -> bool {
    let f = source_files_spec(&inputs.files, inputs.generated_files_enabled);
    let files = inputs.files@;
    let has = declares_verified_field(inputs.files.vals());
    let links = |p: Seq<char>| imports_spec(p, files[p].contents, f);
    let diags = |p: Seq<char>|
        diagnostics_spec(p, files[p].contents, links(p), inputs.compiler_config, has);
    &&& views(r.source_files@) == f
    &&& r.links_by_file@ == Map::new(|p: Seq<char>| f.contains(p), |p: Seq<char>| links(p))
    &&& r.tokens_by_file@ == Map::new(
        |p: Seq<char>| f.contains(p),
        |p: Seq<char>| semantic_tokens_spec(p, files[p].contents),
    )
    &&& r.diagnostics_by_file@ == Map::new(
        |p: Seq<char>| f.contains(p) && diags(p).len() > 0,
        |p: Seq<char>| diags(p),
    )
    &&& views(r.import_edges@) == sort_seq(
        Seq::new(f.len(), |i: int| links(f[i]).map_values(|l: DocumentLinkView| edge(l))).flatten(),
    )
    &&& views(r.module_graph@) == sort_seq(f.map_values(|p: Seq<char>| node(p)))
    &&& views(r.desired_resources@) == sort_seq(
        seq![index_key(inputs.active_branch@)] + Seq::new(
            f.len(),
            |i: int|
                seq![
                    watch_key(f[i]),
                    job_key(f[i], revision_of(revisions@, f[i], inputs.scenario_revision)),
                ],
        ).flatten(),
    )
}

/// Every record that takes part in the source graph names a file of the
/// map by its path.
pub open spec fn paths_indexable(files: Map<Seq<char>, FileRecordView>, generated_enabled: bool) -> bool {
    forall|k: Seq<char>|
        #[trigger] files.contains_key(k) && selected(files[k], generated_enabled) ==> files.contains_key(
            files[k].path,
        )
}

/// Records filed under their own paths name files of the map.
pub proof fn lemma_consistent_indexable(files: Map<Seq<char>, FileRecordView>, generated_enabled: bool)
    requires
        crate::observatory::seed::files_consistent(files),
    ensures
        paths_indexable(files, generated_enabled),
{
}

/// Every source file is a key of the file map, so looking it up cannot fail.
pub open spec fn sources_indexable(inputs: &CanonicalInputs) -> bool {
    let f = source_files_spec(&inputs.files, inputs.generated_files_enabled);
    forall|i: int| 0 <= i < f.len() ==> inputs.files@.contains_key(#[trigger] f[i])
}

fn has_verified_field(inputs: &CanonicalInputs) -> (b: bool)
    ensures
        b == declares_verified_field(inputs.files.vals()),
{
    inputs.files.lemma_keys();
    let mut i: usize = 0;
    while i < inputs.files.len()
        invariant
            i <= inputs.files.vals().len(),
            inputs.files.vals().len() == inputs.files.keys().len(),
            forall|j: int|
                0 <= j < i ==> !contains(
                    #[trigger] inputs.files.vals()[j].contents,
                    "email_verified: bool"@,
                ),
        decreases inputs.files.keys().len() - i,
    {
        if str_contains(inputs.files.val_at(i).contents.as_str(), "email_verified: bool") {
            assert(contains(inputs.files.vals()[i as int].contents, "email_verified: bool"@));
            return true;
        }
        i = i + 1;
    }
    false
}

fn edge_of(l: &DocumentLink) -> (r: String)
    ensures
        r@ == edge(l.deep_view()),
{
    let mut s = l.file_path.dup();
    append(&mut s, " -> ");
    append(&mut s, l.target_path.as_str());
    s
}

fn push_keyed(r: &mut Vec<String>, prefix: &str, p: &str, suffix: &str)
    ensures
        views(final(r)@) == views(old(r)@).push(prefix@ + p@ + suffix@),
{
    let mut s = owned(prefix);
    append(&mut s, p);
    append(&mut s, suffix);
    r.push(s);
    assert(views(final(r)@) =~= views(old(r)@).push(prefix@ + p@ + suffix@));
}

fn job_of(p: &str, rev: u32) -> (r: String)
    ensures
        r@ == job_key(p@, rev),
{
    let mut s = owned("AnalysisJob(");
    append(&mut s, p);
    append(&mut s, "@rev");
    crate::text::push_dec(&mut s, rev as u64);
    append(&mut s, ")");
    s
}

fn watch_of(p: &str) -> (r: String)
    ensures
        r@ == watch_key(p@),
{
    let mut s = if str_starts_with(p, "generated/") {
        owned("GeneratedFileWatch(")
    } else {
        owned("WatchFile(")
    };
    append(&mut s, p);
    append(&mut s, ")");
    s
}

/// Recomputes the whole derived state from the canonical inputs: the
/// source files, each file's links, diagnostics (only files that have
/// some) and tokens, the import edges and module nodes, and the resource
/// demand (the branch's workspace index, and per file a watcher and an
/// analysis job at the file's analysis revision), lists sorted.
pub fn full_recompute(inputs: &CanonicalInputs, analysis_revisions: &StrMap<u32>) -> (r:
    FullState)
    requires
        sources_indexable(inputs),
    ensures
        full_recompute_spec(inputs, analysis_revisions, &r),
{
    let files = source_files(inputs);
    let ghost f = views(files@);
    let ghost fm = inputs.files@;
    let has = has_verified_field(inputs);
    let ghost links = |p: Seq<char>| imports_spec(p, fm[p].contents, f);
    let ghost diags = |p: Seq<char>|
        diagnostics_spec(p, fm[p].contents, links(p), inputs.compiler_config, has);
    let ghost toks = |p: Seq<char>| semantic_tokens_spec(p, fm[p].contents);
    let ghost edges = |i: int| links(f[i]).map_values(|l: DocumentLinkView| edge(l));
    let ghost demand = |i: int|
        seq![
            watch_key(f[i]),
            job_key(f[i], revision_of(analysis_revisions@, f[i], inputs.scenario_revision)),
        ];
    let mut diagnostics_by_file: StrMap<Vec<Diagnostic>> = StrMap::new();
    let mut links_by_file: StrMap<Vec<DocumentLink>> = StrMap::new();
    let mut tokens_by_file: StrMap<Vec<SemanticToken>> = StrMap::new();
    let mut import_edges: Vec<String> = Vec::new();
    let mut module_graph: Vec<String> = Vec::new();
    let mut desired: Vec<String> = Vec::new();
    push_keyed(&mut desired, "WorkspaceIndex(", inputs.active_branch.as_str(), ")");
    let ghost head = views(desired@);
    proof {
        assert(Seq::new(0, edges).flatten() =~= views(import_edges@));
        assert(f.take(0).map_values(|p: Seq<char>| node(p)) =~= views(module_graph@));
        assert(head + Seq::new(0, demand).flatten() =~= views(desired@));
        assert(links_by_file@ =~= Map::new(|p: Seq<char>| f.take(0).contains(p), |p: Seq<char>| links(p)));
        assert(tokens_by_file@ =~= Map::new(|p: Seq<char>| f.take(0).contains(p), |p: Seq<char>| toks(p)));
        assert(diagnostics_by_file@ =~= Map::new(
            |p: Seq<char>| f.take(0).contains(p) && diags(p).len() > 0,
            |p: Seq<char>| diags(p),
        ));
    }
    let mut i: usize = 0;
    while i < files.len()
        invariant
            i <= f.len(),
            f == views(files@),
            f == source_files_spec(&inputs.files, inputs.generated_files_enabled),
            fm == inputs.files@,
            sources_indexable(inputs),
            has == declares_verified_field(inputs.files.vals()),
            links == (|p: Seq<char>| imports_spec(p, fm[p].contents, f)),
            diags == (|p: Seq<char>|
                diagnostics_spec(p, fm[p].contents, links(p), inputs.compiler_config, has)),
            toks == (|p: Seq<char>| semantic_tokens_spec(p, fm[p].contents)),
            edges == (|i: int| links(f[i]).map_values(|l: DocumentLinkView| edge(l))),
            demand == (|i: int|
                seq![
                    watch_key(f[i]),
                    job_key(f[i], revision_of(analysis_revisions@, f[i], inputs.scenario_revision)),
                ]),
            head == seq![index_key(inputs.active_branch@)],
            views(import_edges@) == Seq::new(i as nat, edges).flatten(),
            views(module_graph@) == f.take(i as int).map_values(|p: Seq<char>| node(p)),
            views(desired@) == head + Seq::new(i as nat, demand).flatten(),
            links_by_file@ == Map::new(|p: Seq<char>| f.take(i as int).contains(p), |p: Seq<char>| links(p)),
            tokens_by_file@ == Map::new(|p: Seq<char>| f.take(i as int).contains(p), |p: Seq<char>| toks(p)),
            diagnostics_by_file@ == Map::new(
                |p: Seq<char>| f.take(i as int).contains(p) && diags(p).len() > 0,
                |p: Seq<char>| diags(p),
            ),
        decreases f.len() - i,
    {
        let path = &files[i];
        let ghost pv = path@;
        assert(pv == f[i as int]);
        assert(fm.contains_key(f[i as int]));
        let record = inputs.files.get(path.as_str()).unwrap();
        let contents = record.contents.as_str();
        let links_v = imports(path.as_str(), contents, files.as_slice());
        // import edges
        let ghost old_edges = views(import_edges@);
        let mut j: usize = 0;
        while j < links_v.len()
            invariant
                j <= links_v@.len(),
                views(import_edges@) == old_edges + links_v.deep_view().take(j as int).map_values(
                    |l: DocumentLinkView| edge(l),
                ),
            decreases links_v.len() - j,
        {
            let e = edge_of(&links_v[j]);
            let ghost before = views(import_edges@);
            import_edges.push(e);
            assert(views(import_edges@) =~= before.push(edge(links_v.deep_view()[j as int])));
            assert(links_v.deep_view().take(j + 1).map_values(|l: DocumentLinkView| edge(l))
                =~= links_v.deep_view().take(j as int).map_values(|l: DocumentLinkView| edge(l)).push(
                edge(links_v.deep_view()[j as int]),
            ));
            j = j + 1;
        }
        proof {
            assert(links_v.deep_view().take(links_v@.len() as int) =~= links_v.deep_view());
            assert(Seq::new((i + 1) as nat, edges) =~= Seq::new(i as nat, edges).push(edges(i as int)));
            Seq::new(i as nat, edges).lemma_flatten_push(edges(i as int));
        }
        let diags_v = diagnostics(path.as_str(), contents, links_v.as_slice(), &inputs.compiler_config, has);
        assert(links_v@.map_values(|l: DocumentLink| l.deep_view()) =~= links_v.deep_view());
        let toks_v = semantic_tokens(path.as_str(), contents);
        let ghost old_d = diagnostics_by_file@;
        let ghost old_l = links_by_file@;
        let ghost old_t = tokens_by_file@;
        if diags_v.len() > 0 {
            diagnostics_by_file.insert(path.dup(), diags_v);
        }
        links_by_file.insert(path.dup(), links_v);
        tokens_by_file.insert(path.dup(), toks_v);
        let ghost old_m = views(module_graph@);
        push_keyed(&mut module_graph, "node:", path.as_str(), "");
        let ghost old_des = views(desired@);
        let w = watch_of(path.as_str());
        desired.push(w);
        let rev = match analysis_revisions.get(path.as_str()) {
            Some(r) => *r,
            None => inputs.scenario_revision,
        };
        let job = job_of(path.as_str(), rev);
        desired.push(job);
        proof {
            let ti = f.take(i as int);
            let tn = f.take(i + 1);
            assert(tn =~= ti.push(pv));
            crate::strmap::lemma_push_contains(ti, pv);
            assert(links_by_file@ =~= Map::new(|p: Seq<char>| tn.contains(p), |p: Seq<char>| links(p)));
            assert(tokens_by_file@ =~= Map::new(|p: Seq<char>| tn.contains(p), |p: Seq<char>| toks(p)));
            assert(diagnostics_by_file@ =~= Map::new(
                |p: Seq<char>| tn.contains(p) && diags(p).len() > 0,
                |p: Seq<char>| diags(p),
            ));
            reveal_strlit("");
            assert(pv + ""@ =~= pv);
            assert(views(module_graph@) =~= tn.map_values(|p: Seq<char>| node(p)));
            assert(Seq::new((i + 1) as nat, demand) =~= Seq::new(i as nat, demand).push(demand(i as int)));
            Seq::new(i as nat, demand).lemma_flatten_push(demand(i as int));
            assert(views(desired@) =~= old_des + demand(i as int));
        }
        i = i + 1;
    }
    proof {
        assert(f.take(f.len() as int) =~= f);
    }
    let r = FullState {
        source_files: files,
        import_edges: sort_strings(import_edges),
        diagnostics_by_file,
        links_by_file,
        tokens_by_file,
        desired_resources: sort_strings(desired),
        module_graph: sort_strings(module_graph),
    };
    proof {
        assert(Seq::new(f.len(), edges) =~= Seq::new(
            f.len(),
            |i: int| imports_spec(f[i], fm[f[i]].contents, f).map_values(|l: DocumentLinkView| edge(l)),
        ));
        assert(Seq::new(f.len(), demand) =~= Seq::new(
            f.len(),
            |i: int|
                seq![
                    watch_key(f[i]),
                    job_key(f[i], revision_of(analysis_revisions@, f[i], inputs.scenario_revision)),
                ],
        ));
        assert(r.links_by_file@ =~= Map::new(
            |p: Seq<char>| f.contains(p),
            |p: Seq<char>| imports_spec(p, fm[p].contents, f),
        ));
        assert(r.tokens_by_file@ =~= Map::new(
            |p: Seq<char>| f.contains(p),
            |p: Seq<char>| semantic_tokens_spec(p, fm[p].contents),
        ));
    }
    r
}

/// The selected paths are paths of the records, distinct when theirs are.
proof fn lemma_selected_paths(records: Seq<FileRecordView>, g: bool)
    ensures
        forall|x: Seq<char>|
            #[trigger] selected_paths(records, g).contains(x) ==> exists|j: int|
                0 <= j < records.len() && records[j].path == x && selected(records[j], g),
        (forall|i: int, j: int|
            0 <= i < j < records.len() ==> #[trigger] records[i].path != #[trigger] records[j].path)
            ==> selected_paths(records, g).no_duplicates(),
    decreases records.len(),
{
    if records.len() > 0 {
        let rest = records.drop_last();
        lemma_selected_paths(rest, g);
        let sp = selected_paths(rest, g);
        crate::strmap::lemma_push_contains(sp, records.last().path);
        assert forall|x: Seq<char>| #[trigger] selected_paths(records, g).contains(x) implies exists|j: int|
            0 <= j < records.len() && records[j].path == x && selected(records[j], g) by {
            if sp.contains(x) {
                let j = choose|j: int| 0 <= j < rest.len() && rest[j].path == x && selected(rest[j], g);
                assert(records[j] == rest[j]);
            } else {
                assert(records[records.len() - 1].path == x);
            }
        }
        if forall|i: int, j: int|
            0 <= i < j < records.len() ==> #[trigger] records[i].path != #[trigger] records[j].path {
            assert forall|i: int, j: int|
                0 <= i < j < rest.len() implies #[trigger] rest[i].path != #[trigger] rest[j].path by {
                assert(rest[i] == records[i]);
                assert(rest[j] == records[j]);
            }
            if selected(records.last(), g) {
                if sp.contains(records.last().path) {
                    let j = choose|j: int| 0 <= j < rest.len() && rest[j].path == records.last().path;
                    assert(records[j] == rest[j]);
                    assert(records[j].path != records[records.len() - 1].path);
                }
                assert(sp.push(records.last().path).no_duplicates()) by {
                    let q = sp.push(records.last().path);
                    assert forall|a: int, b: int| 0 <= a < q.len() && 0 <= b < q.len() && a != b implies q[a]
                        != q[b] by {
                        if a < sp.len() && b < sp.len() {
                        } else if a < sp.len() {
                            assert(sp.contains(q[a]));
                        } else {
                            assert(sp.contains(q[b]));
                        }
                    }
                }
            }
        }
    }
}

/// A full recompute of consistent inputs is well formed: its source files
/// are distinct, it holds links and tokens for exactly them, and
/// diagnostics only for files that have some.
pub(crate) fn lemma_full_wf(inputs: &CanonicalInputs, revisions: &StrMap<u32>, full: &FullState)
    requires
        full_recompute_spec(inputs, revisions, full),
    ensures
        crate::observatory::seed::files_consistent(inputs.files@) ==> crate::observatory::projection::full_wf(
            full.deep_view(),
        ),
{
    inputs.files.lemma_keys();
    proof {
      if crate::observatory::seed::files_consistent(inputs.files@) {
        let vals = inputs.files.vals();
        let keys = inputs.files.keys();
        assert forall|i: int, j: int|
            0 <= i < j < vals.len() implies #[trigger] vals[i].path != #[trigger] vals[j].path by {
            assert(inputs.files@[keys[i]] == vals[i]);
            assert(inputs.files@[keys[j]] == vals[j]);
            assert(inputs.files@.contains_key(keys[i]));
            assert(inputs.files@.contains_key(keys[j]));
        }
        let g = inputs.generated_files_enabled;
        lemma_selected_paths(vals, g);
        let sp = selected_paths(vals, g);
        crate::strmap::lemma_sort_seq_multiset(sp);
        sp.lemma_multiset_has_no_duplicates();
        sort_seq(sp).lemma_multiset_has_no_duplicates_conv();
        let fv = full.deep_view();
        assert(fv.source_files =~= views(full.source_files@));
      }
    }
}

/// Inputs whose selected records name files of the map can be fully
/// recomputed: each source file is a key.
pub(crate) fn lemma_sources_indexable(inputs: &CanonicalInputs)
    requires
        paths_indexable(inputs.files@, inputs.generated_files_enabled),
    ensures
        sources_indexable(inputs),
{
    inputs.files.lemma_keys();
    proof {
        let vals = inputs.files.vals();
        let keys = inputs.files.keys();
        let g = inputs.generated_files_enabled;
        lemma_selected_paths(vals, g);
        let sp = selected_paths(vals, g);
        crate::strmap::lemma_sort_seq_multiset(sp);
        let f = sort_seq(sp);
        assert forall|i: int| 0 <= i < f.len() implies inputs.files@.contains_key(#[trigger] f[i]) by {
            assert(f.contains(f[i]));
            assert(sp.contains(f[i]));
            let j = choose|j: int| 0 <= j < vals.len() && vals[j].path == f[i] && selected(vals[j], g);
            assert(inputs.files@[keys[j]] == vals[j]);
            assert(inputs.files@.contains_key(keys[j]));
        }
    }
}

} // verus!
