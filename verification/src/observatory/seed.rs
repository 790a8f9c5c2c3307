//! The seeded workspace: two branches of a small module tree.
use vstd::prelude::*;
use crate::observatory::types::{CanonicalInputs, CompilerConfig, FileRecord, FileRecordView};
use crate::strmap::StrMap;
use crate::text::owned;

verus! {

/// `src/app.tl` on the main branch.
pub const APP_MAIN: &'static str = "module app\n\nimport \"./math.tl\"\nimport \"./legacy_user.tl\"\nimport \"./schema.tl\"\n\nlet user = load_user()\nlet total = add(1, \"two\")\nuser.email_verified\n";

/// `src/app.tl` once fixed for the second schema.
pub const APP_V2: &'static str = "module app\n\nimport \"./math.tl\"\nimport \"./schema_v2.tl\"\n\nlet user = load_user()\nlet total = add(1, 2)\nuser.email_verified\n";

/// `src/legacy_user.tl`.
pub const LEGACY: &'static str = "module legacy_user\n\nlet name = \"Ada\"\nTODO_ERROR\n";

/// `src/math.tl`.
pub const MATH: &'static str = "module math\n\nfn add(a: number, b: number) -> number\n";

/// `src/schema.tl`.
pub const SCHEMA: &'static str = "module schema\n\ntype User {\n  id: string\n  email: string\n}\n";

/// `src/schema_v2.tl`, the renamed schema with a verified-email field.
pub const SCHEMA_V2: &'static str = "module schema_v2\n\ntype User {\n  id: string\n  email: string\n  email_verified: bool\n}\n";

/// `generated/api_schema.tl`.
pub const API_SCHEMA: &'static str = "module api_schema\n\ntype ApiUser {\n  id: string\n  email: string\n}\n";

/// The record of a file.
pub open spec fn record(path: &str, contents: &str, generated: bool) -> FileRecordView {
    FileRecordView { path: path@, contents: contents@, generated }
}

/// The files of a branch, by path: the schema-v2 branch, or main for any
/// other name.
pub open spec fn branch_files_spec(branch: Seq<char>) -> Map<Seq<char>, FileRecordView> {
    if branch == "feature/schema-v2"@ {
        map![
            "src/app.tl"@ => record("src/app.tl", APP_V2, false),
            "src/math.tl"@ => record("src/math.tl", MATH, false),
            "src/schema_v2.tl"@ => record("src/schema_v2.tl", SCHEMA_V2, false),
            "generated/api_schema.tl"@ => record("generated/api_schema.tl", API_SCHEMA, true),
        ]
    } else {
        map![
            "src/app.tl"@ => record("src/app.tl", APP_MAIN, false),
            "src/legacy_user.tl"@ => record("src/legacy_user.tl", LEGACY, false),
            "src/math.tl"@ => record("src/math.tl", MATH, false),
            "src/schema.tl"@ => record("src/schema.tl", SCHEMA, false),
            "generated/api_schema.tl"@ => record("generated/api_schema.tl", API_SCHEMA, true),
        ]
    }
}

/// Every record is filed under its own path.
pub open spec fn files_consistent(m: Map<Seq<char>, FileRecordView>) -> bool {
    forall|k: Seq<char>| #[trigger] m.contains_key(k) ==> m[k].path == k
}

fn add_file(m: &mut StrMap<FileRecord>, path: &str, contents: &str, generated: bool)
    ensures
        final(m)@ == old(m)@.insert(path@, record(path, contents, generated)),
{
    let rec = FileRecord { path: owned(path), contents: owned(contents), generated };
    m.insert(owned(path), rec);
}

/// The files of a branch: `feature/schema-v2`, or main for any other name.
pub fn branch_files(branch: &str) -> (r: StrMap<FileRecord>)
    ensures
        r@ == branch_files_spec(branch@),
        files_consistent(r@),
{
    let mut m = StrMap::new();
    if crate::text::str_eq(branch, "feature/schema-v2") {
        add_file(&mut m, "src/app.tl", APP_V2, false);
        add_file(&mut m, "src/math.tl", MATH, false);
        add_file(&mut m, "src/schema_v2.tl", SCHEMA_V2, false);
        add_file(&mut m, "generated/api_schema.tl", API_SCHEMA, true);
        assert(m@ =~= branch_files_spec(branch@));
    } else {
        add_file(&mut m, "src/app.tl", APP_MAIN, false);
        add_file(&mut m, "src/legacy_user.tl", LEGACY, false);
        add_file(&mut m, "src/math.tl", MATH, false);
        add_file(&mut m, "src/schema.tl", SCHEMA, false);
        add_file(&mut m, "generated/api_schema.tl", API_SCHEMA, true);
        assert(m@ =~= branch_files_spec(branch@));
    }
    m
}

/// The canonical inputs the observatory starts from.
pub fn initial_inputs() -> (r: CanonicalInputs)
    ensures
        r.active_branch@ == "main"@,
        r.files@ == branch_files_spec("main"@),
        r.open_editors.deep_view() == seq!["src/app.tl"@],
        r.active_editor.deep_view() == Some("src/app.tl"@),
        r.compiler_config == CompilerConfig::Strict,
        r.generated_files_enabled,
        r.host_statuses@.len() == 0,
        r.scenario_revision == 1,
{
    let mut open_editors = Vec::new();
    open_editors.push(owned("src/app.tl"));
    let r = CanonicalInputs {
        active_branch: owned("main"),
        files: branch_files("main"),
        open_editors,
        active_editor: Some(owned("src/app.tl")),
        compiler_config: CompilerConfig::Strict,
        generated_files_enabled: true,
        host_statuses: Vec::new(),
        scenario_revision: 1,
    };
    assert(r.open_editors.deep_view() =~= seq!["src/app.tl"@]);
    r
}

} // verus!
