//! Planning a reorganization: where each file goes, which kind of move it
//! needs, and which moves must not run.
use crate::error::AlexandriaError;
use crate::models::{FileEntry, Group, ReorgOperation, ReorgPlanRequest};
use crate::paths::{
    file_stem_of, first_component_of, is_absolute, is_absolute_path, spec_file_stem,
    spec_first_component,
};
use crate::reorganizer::templates::{
    build_from, build_target_path, is_safe_relative_path, lemma_build_from_extends_root,
    lemma_rendered_path_is_safe,
    render_template, spec_render_template, TemplateContext, TemplateValues,
};
use crate::system::storage::{normalize_verbatim_prefix, spec_normalize_verbatim_prefix};
use crate::text::{
    chars_eq, chars_starts_with, has_prefix, opt_view, replace_all, replace_str, split_on,
    str_chars, string_views, to_lowercase, trim_end_char, trim_end_matching, unicode_lowercase,
};
use vstd::prelude::*;

verus! {

/// A file to place, with what the template reads of it from the index: its
/// group, if it has one, and the name of its first tag, if it has one.
#[derive(Debug, Clone)]
pub struct PlanFile {
    pub file: FileEntry,
    pub group: Option<Group>,
    pub first_tag: Option<String>,
}

/// Name for the UTC calendar date of a Unix millisecond timestamp, as chrono
/// formats it with "%Y", "%m" and "%d"; `None` when chrono cannot represent
/// the timestamp.
pub uninterp spec fn utc_date_fields(ms: int) -> Option<(Seq<char>, Seq<char>, Seq<char>)>;

/// Calls chrono's `DateTime::from_timestamp_millis` and formats the date
/// with "%Y", "%m" and "%d". The result is named by `utc_date_fields`; which
/// timestamps chrono can represent is chrono's and is not stated here.
#[verifier::external_body]
fn utc_date_parts(ms: i64) -> (r: Option<(String, String, String)>)
    ensures
        match r {
            Some(t) => utc_date_fields(ms as int) == Some((t.0@, t.1@, t.2@)),
            None => utc_date_fields(ms as int) is None,
        },
{
    match chrono::DateTime::from_timestamp_millis(ms) {
        Some(dt) => Some(
            (
                dt.format("%Y").to_string(),
                dt.format("%m").to_string(),
                dt.format("%d").to_string(),
            ),
        ),
        None => None,
    }
}

/// The year, month and day of a timestamp; empty for a timestamp that
/// cannot be represented.
pub open spec fn date_values(ms: int) -> (Seq<char>, Seq<char>, Seq<char>) {
    match utc_date_fields(ms) {
        Some(t) => t,
        None => (Seq::empty(), Seq::empty(), Seq::empty()),
    }
}

/// The text of an optional string, empty when absent.
pub open spec fn text_or_empty(o: Option<String>) -> Seq<char> {
    match o {
        Some(s) => s@,
        None => Seq::empty(),
    }
}

/// The template context of a file: its type, its lowercased extension, its
/// name without extension, its group (or "unknown"), the date it was
/// modified, and its first tag (or "untagged").
pub open spec fn plan_context(pf: PlanFile) -> TemplateValues {
    let ext = unicode_lowercase(text_or_empty(pf.file.extension));
    let d = date_values(pf.file.modified_at as int);
    TemplateValues {
        file_type: pf.file.file_type@,
        extension: ext,
        name: match spec_file_stem(pf.file.name@) {
            Some(s) => s,
            None => pf.file.name@,
        },
        ext: ext,
        group_name: match pf.group {
            Some(g) => g.name@,
            None => "unknown"@,
        },
        group_kind: match pf.group {
            Some(g) => g.kind@,
            None => "unknown"@,
        },
        year: d.0,
        month: d.1,
        day: d.2,
        tag: match pf.first_tag {
            Some(t) => t@,
            None => "untagged"@,
        },
    }
}

/// The template context of a file.
fn plan_context_of(pf: &PlanFile) -> (r: TemplateContext)
    ensures
        r@ == plan_context(*pf),
{
    let raw_ext = match &pf.file.extension {
        Some(e) => e.clone(),
        None => String::new(),
    };
    let extension = to_lowercase(raw_ext.as_str());
    let ext = to_lowercase(raw_ext.as_str());
    let name = match file_stem_of(pf.file.name.as_str()) {
        Some(s) => s,
        None => pf.file.name.clone(),
    };
    let (group_name, group_kind) = match &pf.group {
        Some(g) => (g.name.clone(), g.kind.clone()),
        None => (String::from_str("unknown"), String::from_str("unknown")),
    };
    let (year, month, day) = match utc_date_parts(pf.file.modified_at) {
        Some(t) => t,
        None => (String::new(), String::new(), String::new()),
    };
    let tag = match &pf.first_tag {
        Some(t) => t.clone(),
        None => String::from_str("untagged"),
    };
    TemplateContext {
        file_type: pf.file.file_type.clone(),
        extension,
        name,
        ext,
        group_name,
        group_kind,
        year,
        month,
        day,
        tag,
    }
}

/// The relative path a file is placed at: the template rendered with the
/// file's context. A rendered path is always a safe relative path, so this
/// never fails.
pub fn render_relative_path(template: &str, pf: &PlanFile) -> (r: Result<String, AlexandriaError>)
    ensures
        r is Ok,
        r matches Ok(s) && s@ == spec_render_template(template@, plan_context(*pf)),
{
    let ctx = plan_context_of(pf);
    let rendered = render_template(template, &ctx);
    if !is_safe_relative_path(rendered.as_str()) {
        proof {
            lemma_rendered_path_is_safe(template@, ctx@);
        }
        let mut msg = String::from_str("Rendered template produced an unsafe relative path: ");
        msg.append(rendered.as_str());
        return Err(AlexandriaError::BadRequest(msg));
    }
    Ok(rendered)
}

/// A path as text. Paths are held as strings already.
pub fn normalize_path(path: &str) -> (r: String)
    ensures
        r@ == path@,
{
    String::from_str(path)
}

/// `dest` with '/' turned into '\'.
pub fn dest_str_to_path(dest: &str) -> (r: String)
    ensures
        r@ == replace_all(dest@, seq!['/'], seq!['\\']),
{
    proof {
        reveal_strlit("/");
        reveal_strlit("\\");
        assert("/"@ =~= seq!['/']);
        assert("\\"@ =~= seq!['\\']);
    }
    replace_str(dest, "/", "\\")
}

/// Strip the Windows verbatim (`\\?\`) prefix.
pub fn strip_verbatim_prefix(path: &str) -> (r: String)
    ensures
        r@ == spec_normalize_verbatim_prefix(path@),
{
    normalize_verbatim_prefix(path)
}

/// Whether two paths start with the same component, once stripped of a
/// verbatim prefix.
pub open spec fn same_first_component(a: Seq<char>, b: Seq<char>) -> bool {
    match (
        spec_first_component(spec_normalize_verbatim_prefix(a)),
        spec_first_component(spec_normalize_verbatim_prefix(b)),
    ) {
        (Some(x), Some(y)) => x == y,
        _ => false,
    }
}

/// Whether two paths start with the same component (the same volume, for
/// the planner).
pub fn same_volume_prefix(a: &str, b: &str) -> (r: bool)
    ensures
        r == same_first_component(a@, b@),
{
    let an = strip_verbatim_prefix(a);
    let bn = strip_verbatim_prefix(b);
    let av = str_chars(an.as_str());
    let bv = str_chars(bn.as_str());
    let fa = first_component_of(&av);
    let fb = first_component_of(&bv);
    match fa {
        Some(x) => match fb {
            Some(y) => chars_eq(&x, &y),
            None => false,
        },
        None => false,
    }
}

/// A path without trailing '/', lowercased: the form in which containment is
/// checked.
pub open spec fn containment_key(p: Seq<char>) -> Seq<char> {
    unicode_lowercase(trim_end_char(p, '/'))
}

/// Whether `child` lies strictly under `parent`.
pub open spec fn lies_under(child: Seq<char>, parent: Seq<char>) -> bool {
    let c = containment_key(child);
    let p = containment_key(parent);
    p != c && has_prefix(c, p.push('/'))
}

/// Whether `child` lies strictly under one of `parents`.
pub open spec fn lies_under_any(child: Seq<char>, parents: Seq<Seq<char>>) -> bool {
    exists|i: int| 0 <= i < parents.len() && lies_under(child, #[trigger] parents[i])
}

/// The containment key of a path, as characters.
fn containment_key_of(p: &str) -> (r: Vec<char>)
    ensures
        r@ == containment_key(p@),
{
    let v = str_chars(p);
    let t = trim_end_matching(&v, '/');
    let ts = crate::text::chars_to_string(&t);
    let l = to_lowercase(ts.as_str());
    str_chars(l.as_str())
}

/// Whether `child` lies strictly under one of `parents`, comparing without
/// trailing '/' and ignoring case.
pub fn is_contained_under_any(child: &str, parents: &Vec<String>) -> (r: bool)
    ensures
        r == lies_under_any(child@, string_views(parents@)),
{
    let c = containment_key_of(child);
    let mut i: usize = 0;
    while i < parents.len()
        invariant
            i <= parents.len(),
            c@ == containment_key(child@),
            forall|j: int| 0 <= j < i ==> !lies_under(child@, #[trigger] string_views(parents@)[j]),
        decreases parents.len() - i,
    {
        let p = containment_key_of(parents[i].as_str());
        let mut ps = p.clone();
        ps.push('/');
        assert(string_views(parents@)[i as int] == parents@[i as int]@);
        if !chars_eq(&p, &c) && chars_starts_with(&c, &ps) {
            assert(lies_under(child@, string_views(parents@)[i as int]));
            return true;
        }
        i += 1;
    }
    false
}

/// Why a destination is unsafe, if it is: it lies inside a system directory
/// of Windows, or, compared without case and with '/' read as '\', it does
/// not start with the target root.
pub open spec fn unsafe_destination(dest: Seq<char>, target_root: Seq<char>) -> Option<Seq<char>> {
    let d = unicode_lowercase(dest);
    if has_prefix(d, "c:\\windows"@) || has_prefix(d, "c:\\program files"@) || has_prefix(
        d,
        "c:\\program files (x86)"@,
    ) {
        Some("Destination is inside a system directory"@)
    } else if !has_prefix(
        replace_all(d, seq!['/'], seq!['\\']),
        replace_all(unicode_lowercase(target_root), seq!['/'], seq!['\\']),
    ) {
        Some("Destination escapes the target root"@)
    } else {
        None
    }
}

/// Whether `s` starts with `p`.
fn str_starts_with(s: &Vec<char>, p: &str) -> (r: bool)
    ensures
        r == has_prefix(s@, p@),
{
    let pv = str_chars(p);
    chars_starts_with(s, &pv)
}

/// Refuse destinations inside system directories or outside the target root.
pub fn validate_safe_destination(dest: &str, target_root: &str) -> (r: Result<(), AlexandriaError>)
    ensures
        match r {
            Ok(()) => unsafe_destination(dest@, target_root@) is None,
            Err(AlexandriaError::BadRequest(m)) => unsafe_destination(dest@, target_root@) == Some(
                m@,
            ),
            Err(_) => false,
        },
{
    proof {
        reveal_strlit("/");
        reveal_strlit("\\");
        assert("/"@ =~= seq!['/']);
        assert("\\"@ =~= seq!['\\']);
    }
    let d = to_lowercase(dest);
    let dv = str_chars(d.as_str());
    if str_starts_with(&dv, "c:\\windows") || str_starts_with(&dv, "c:\\program files")
        || str_starts_with(&dv, "c:\\program files (x86)") {
        return Err(AlexandriaError::BadRequest(String::from_str("Destination is inside a system directory")));
    }
    let root_lower = to_lowercase(target_root);
    let target = replace_str(root_lower.as_str(), "/", "\\");
    let dn = replace_str(d.as_str(), "/", "\\");
    let dnv = str_chars(dn.as_str());
    if !str_starts_with(&dnv, target.as_str()) {
        return Err(AlexandriaError::BadRequest(String::from_str("Destination escapes the target root")));
    }
    Ok(())
}

/// Whether a request allows moves across volumes.
pub open spec fn allows_cross_volume(request: ReorgPlanRequest) -> bool {
    match request.allow_cross_volume {
        Some(b) => b,
        None => false,
    }
}

/// The message of a move across volumes that was not allowed.
pub open spec fn cross_volume_message() -> Seq<char> {
    "Cross-volume move not allowed without --allow-cross-volume"@
}

/// The destination of a file: the rendered relative path joined under the
/// target root.
pub open spec fn draft_dest(target_root: Seq<char>, template: Seq<char>, pf: PlanFile) -> Seq<
    char,
> {
    build_from(target_root, split_on(spec_render_template(template, plan_context(pf)), '/'))
}

/// The move a file needs: a rename when source and destination share their
/// first component, a copy and delete across volumes when that is allowed,
/// and otherwise none ("failed").
pub open spec fn draft_action(source: Seq<char>, dest: Seq<char>, allow_cross: bool) -> Seq<char> {
    if same_first_component(source, dest) {
        "rename_same_volume"@
    } else if allow_cross {
        "copy_delete"@
    } else {
        "failed"@
    }
}

/// The (source, destination) pair of each file of a plan.
pub open spec fn plan_routes(target_root: Seq<char>, template: Seq<char>, files: Seq<PlanFile>) -> Seq<
    (Seq<char>, Seq<char>),
> {
    files.map_values(|pf: PlanFile| (pf.file.path@, draft_dest(target_root, template, pf)))
}

/// The (source, destination) pair of each operation.
pub open spec fn op_routes(ops: Seq<ReorgOperation>) -> Seq<(Seq<char>, Seq<char>)> {
    ops.map_values(|o: ReorgOperation| (o.source_path@, o.dest_path@))
}

/// The sources of the routes.
pub open spec fn route_sources(routes: Seq<(Seq<char>, Seq<char>)>) -> Seq<Seq<char>> {
    routes.map_values(|r: (Seq<char>, Seq<char>)| r.0)
}

/// Whether another route has the same destination as route `i`.
pub open spec fn dest_shared(routes: Seq<(Seq<char>, Seq<char>)>, i: int) -> bool {
    exists|j: int| #![trigger routes[j]] 0 <= j < routes.len() && j != i && routes[j].1 == routes[i].1
}

/// The action and message a route is failed with, if it conflicts: its
/// destination is shared with another route, lies under the source of a
/// route, or is unsafe for the target root.
pub open spec fn conflict(routes: Seq<(Seq<char>, Seq<char>)>, i: int, target_root: Seq<char>) -> Option<
    (Seq<char>, Seq<char>),
> {
    let d = routes[i].1;
    if dest_shared(routes, i) {
        Some(("skip_collision"@, "Destination collision: multiple files resolve to "@ + d))
    } else if lies_under_any(d, route_sources(routes)) {
        Some(("failed"@, "Destination is contained within another source path"@))
    } else {
        match unsafe_destination(replace_all(d, seq!['/'], seq!['\\']), target_root) {
            Some(m) => Some(("failed"@, "Unsafe destination: "@ + "Bad request: "@ + m)),
            None => None,
        }
    }
}

/// `new` is `old` with only its action, status and error message changed.
pub open spec fn same_record(new: ReorgOperation, old: ReorgOperation) -> bool {
    &&& new.id == old.id
    &&& new.job_id == old.job_id
    &&& new.file_id == old.file_id
    &&& new.source_path == old.source_path
    &&& new.dest_path == old.dest_path
    &&& new.checksum_before == old.checksum_before
    &&& new.checksum_after == old.checksum_after
    &&& new.size_bytes == old.size_bytes
    &&& new.created_at == old.created_at
    &&& new.executed_at == old.executed_at
}

/// `new` is `old` failed with the action and message of its conflict, or
/// `old` itself when there is none.
pub open spec fn conflict_applied(
    new: ReorgOperation,
    old: ReorgOperation,
    c: Option<(Seq<char>, Seq<char>)>,
) -> bool {
    match c {
        None => new == old,
        Some(am) => {
            &&& same_record(new, old)
            &&& new.action@ == am.0
            &&& new.status@ == "failed"@
            &&& opt_view(new.error_message) == Some(am.1)
        },
    }
}

/// `op` is the operation planned for the file `pf` with destination `dest`:
/// drafted with the move the file needs, then failed with the action and
/// message of its conflict `c`, if it has one. The checksum is kept only for
/// a copy and delete.
pub open spec fn is_planned_op(
    op: ReorgOperation,
    pf: PlanFile,
    dest: Seq<char>,
    allow_cross: bool,
    checksum: Option<String>,
    job_id: i64,
    created_at: i64,
    c: Option<(Seq<char>, Seq<char>)>,
) -> bool {
    let action = draft_action(pf.file.path@, dest, allow_cross);
    &&& op.id == 0
    &&& op.job_id == job_id
    &&& op.file_id == pf.file.id
    &&& op.source_path@ == pf.file.path@
    &&& op.dest_path@ == dest
    &&& opt_view(op.checksum_before) == (if action == "copy_delete"@ {
        opt_view(checksum)
    } else {
        None
    })
    &&& op.checksum_after is None
    &&& op.size_bytes == pf.file.size_bytes
    &&& op.created_at == created_at
    &&& op.executed_at is None
    &&& match c {
        None => {
            &&& op.action@ == action
            &&& op.status@ == "pending"@
            &&& opt_view(op.error_message) == (if action == "failed"@ {
                Some(cross_volume_message())
            } else {
                None
            })
        },
        Some(am) => {
            &&& op.action@ == am.0
            &&& op.status@ == "failed"@
            &&& opt_view(op.error_message) == Some(am.1)
        },
    }
}

/// The action and status names are pairwise distinct.
proof fn lemma_action_names_differ()
    ensures
        "rename_same_volume"@ != "copy_delete"@,
        "rename_same_volume"@ != "failed"@,
        "copy_delete"@ != "failed"@,
        "skip_collision"@ != "copy_delete"@,
        "failed"@ != "pending"@,
{
    reveal_strlit("rename_same_volume");
    reveal_strlit("copy_delete");
    reveal_strlit("failed");
    reveal_strlit("skip_collision");
    reveal_strlit("pending");
    assert("rename_same_volume"@.len() == 18);
    assert("copy_delete"@.len() == 11);
    assert("failed"@.len() == 6);
    assert("skip_collision"@.len() == 14);
    assert("pending"@.len() == 7);
}

/// A copy of an optional string.
fn copy_opt(o: &Option<String>) -> (r: Option<String>)
    ensures
        r == *o,
{
    match o {
        Some(s) => Some(s.clone()),
        None => None,
    }
}

/// The operation drafted for a file, before conflicts between operations are
/// looked at.
pub fn draft_operation(
    target_root: &str,
    template: &str,
    allow_cross: bool,
    pf: &PlanFile,
    checksum: &Option<String>,
    job_id: i64,
    created_at: i64,
) -> (r: ReorgOperation)
    ensures
        is_planned_op(
            r,
            *pf,
            draft_dest(target_root@, template@, *pf),
            allow_cross,
            *checksum,
            job_id,
            created_at,
            None,
        ),
{
    proof {
        lemma_action_names_differ();
    }
    let relative = match render_relative_path(template, pf) {
        Ok(s) => s,
        Err(_) => String::new(),
    };
    let dest_path = build_target_path(target_root, relative.as_str());
    let dest_str = normalize_path(dest_path.as_str());
    let same = same_volume_prefix(pf.file.path.as_str(), dest_str.as_str());
    let action = if same {
        String::from_str("rename_same_volume")
    } else if allow_cross {
        String::from_str("copy_delete")
    } else {
        String::from_str("failed")
    };
    let checksum_before = if !same && allow_cross {
        copy_opt(checksum)
    } else {
        None
    };
    let error_message = if !same && !allow_cross {
        Some(String::from_str("Cross-volume move not allowed without --allow-cross-volume"))
    } else {
        None
    };
    ReorgOperation {
        id: 0,
        job_id,
        file_id: pf.file.id,
        source_path: pf.file.path.clone(),
        dest_path: dest_str,
        action,
        status: String::from_str("pending"),
        checksum_before,
        checksum_after: None,
        size_bytes: pf.file.size_bytes,
        error_message,
        created_at,
        executed_at: None,
    }
}

/// Whether the file will be copied across volumes, so that the checksum of
/// its source is wanted before planning.
pub fn needs_source_checksum(request: &ReorgPlanRequest, pf: &PlanFile) -> (r: bool)
    ensures
        r == (draft_action(
            pf.file.path@,
            draft_dest(request.target_root@, request.template@, *pf),
            allows_cross_volume(*request),
        ) == "copy_delete"@),
{
    proof {
        lemma_action_names_differ();
    }
    let allow_cross = match request.allow_cross_volume {
        Some(b) => b,
        None => false,
    };
    let op = draft_operation(
        request.target_root.as_str(),
        request.template.as_str(),
        allow_cross,
        pf,
        &None,
        0,
        0,
    );
    !same_volume_prefix(op.source_path.as_str(), op.dest_path.as_str()) && allow_cross
}

/// The conflict of each operation, as (action, message), computed on the
/// operations' routes.
fn route_conflicts(ops: &Vec<ReorgOperation>, target_root: &str) -> (r: Vec<
    Option<(String, String)>,
>)
    ensures
        r.len() == ops.len(),
        forall|i: int|
            0 <= i < ops.len() ==> match #[trigger] r@[i] {
                None => conflict(op_routes(ops@), i, target_root@) is None,
                Some(am) => conflict(op_routes(ops@), i, target_root@) == Some((am.0@, am.1@)),
            },
{
    let ghost routes = op_routes(ops@);
    let n = ops.len();
    let mut dests: Vec<Vec<char>> = Vec::new();
    let mut sources: Vec<String> = Vec::new();
    let mut k: usize = 0;
    while k < n
        invariant
            n == ops.len(),
            routes == op_routes(ops@),
            k <= n,
            dests.len() == k,
            sources.len() == k,
            forall|j: int| 0 <= j < k ==> #[trigger] dests@[j]@ == routes[j].1,
            forall|j: int| 0 <= j < k ==> #[trigger] sources@[j]@ == routes[j].0,
        decreases n - k,
    {
        dests.push(str_chars(ops[k].dest_path.as_str()));
        sources.push(ops[k].source_path.clone());
        k += 1;
    }
    assert(string_views(sources@) =~= route_sources(routes));
    let mut out: Vec<Option<(String, String)>> = Vec::new();
    let mut i: usize = 0;
    while i < n
        invariant
            n == ops.len(),
            routes == op_routes(ops@),
            dests.len() == n,
            forall|j: int| 0 <= j < n ==> #[trigger] dests@[j]@ == routes[j].1,
            string_views(sources@) == route_sources(routes),
            i <= n,
            out.len() == i,
            forall|j: int|
                0 <= j < i ==> match #[trigger] out@[j] {
                    None => conflict(routes, j, target_root@) is None,
                    Some(am) => conflict(routes, j, target_root@) == Some((am.0@, am.1@)),
                },
        decreases n - i,
    {
        let mut shared = false;
        let mut j: usize = 0;
        while j < n
            invariant
                n == ops.len(),
                routes == op_routes(ops@),
                dests.len() == n,
                forall|t: int| 0 <= t < n ==> #[trigger] dests@[t]@ == routes[t].1,
                i < n,
                j <= n,
                shared ==> dest_shared(routes, i as int),
                !shared ==> forall|t: int| 0 <= t < j && t != i ==> routes[t].1 != routes[i as int].1,
            decreases n - j,
        {
            if j != i && chars_eq(&dests[j], &dests[i]) {
                assert(routes[j as int].1 == routes[i as int].1);
                shared = true;
            }
            j += 1;
        }
        let dest = &ops[i].dest_path;
        assert(dest@ == routes[i as int].1);
        let c = if shared {
            let mut msg = String::from_str("Destination collision: multiple files resolve to ");
            msg.append(dest.as_str());
            Some((String::from_str("skip_collision"), msg))
        } else if is_contained_under_any(dest.as_str(), &sources) {
            Some(
                (
                    String::from_str("failed"),
                    String::from_str("Destination is contained within another source path"),
                ),
            )
        } else {
            let windows_dest = dest_str_to_path(dest.as_str());
            match validate_safe_destination(windows_dest.as_str(), target_root) {
                Ok(()) => None,
                Err(e) => {
                    let text = e.message();
                    let mut msg = String::from_str("Unsafe destination: ");
                    msg.append(text.as_str());
                    proof {
                        if let AlexandriaError::BadRequest(m) = e {
                            assert(msg@ =~= "Unsafe destination: "@ + "Bad request: "@ + m@);
                        }
                    }
                    Some((String::from_str("failed"), msg))
                },
            }
        };
        out.push(c);
        i += 1;
    }
    out
}

/// Mark the operations that conflict as failed: those whose destination is
/// shared with another operation ("skip_collision"), lies under the source
/// of an operation, or is unsafe for the target root.
pub fn resolve_conflicts(ops: Vec<ReorgOperation>, target_root: &str) -> (r: Vec<ReorgOperation>)
    ensures
        r.len() == ops.len(),
        forall|i: int|
            0 <= i < ops.len() ==> conflict_applied(
                #[trigger] r@[i],
                ops@[i],
                conflict(op_routes(ops@), i, target_root@),
            ),
{
    let conflicts = route_conflicts(&ops, target_root);
    let ghost original = ops@;
    let n = ops.len();
    let mut rest = ops;
    let mut out: Vec<ReorgOperation> = Vec::new();
    let mut i: usize = 0;
    while i < n
        invariant
            n == original.len(),
            conflicts.len() == n,
            forall|j: int|
                0 <= j < n ==> match #[trigger] conflicts@[j] {
                    None => conflict(op_routes(original), j, target_root@) is None,
                    Some(am) => conflict(op_routes(original), j, target_root@) == Some(
                        (am.0@, am.1@),
                    ),
                },
            i <= n,
            rest@ == original.skip(i as int),
            out.len() == i,
            forall|j: int|
                0 <= j < i ==> conflict_applied(
                    #[trigger] out@[j],
                    original[j],
                    conflict(op_routes(original), j, target_root@),
                ),
        decreases n - i,
    {
        let mut op = rest.remove(0);
        assert(op == original[i as int]);
        assert(rest@ =~= original.skip(i + 1));
        match &conflicts[i] {
            Some(am) => {
                op.action = am.0.clone();
                op.status = String::from_str("failed");
                op.error_message = Some(am.1.clone());
            },
            None => {},
        }
        out.push(op);
        i += 1;
    }
    out
}

/// Build the operations of a plan for the given files, in their order. The
/// target root must be absolute. `checksums[i]` is the checksum of the
/// source of `files[i]`, kept on the operation when it is a copy across
/// volumes. Every destination lies under the target root; an operation left
/// pending has a destination that no other operation has, that lies under
/// no operation's source and that is safe; without leave to cross volumes no
/// operation copies across volumes.
pub fn build_operations(
    request: &ReorgPlanRequest,
    files: &Vec<PlanFile>,
    checksums: &Vec<Option<String>>,
    job_id: i64,
    created_at: i64,
) -> (r: Result<Vec<ReorgOperation>, AlexandriaError>)
    requires
        checksums.len() == files.len(),
    ensures
        match r {
            Err(e) => {
                &&& !is_absolute_path(request.target_root@)
                &&& e matches AlexandriaError::BadRequest(m) && m@
                    == "target_root must be an absolute path"@
            },
            Ok(ops) => {
                &&& is_absolute_path(request.target_root@)
                &&& ops.len() == files.len()
                &&& forall|i: int|
                    0 <= i < files.len() ==> is_planned_op(
                        #[trigger] ops@[i],
                        files@[i],
                        draft_dest(request.target_root@, request.template@, files@[i]),
                        allows_cross_volume(*request),
                        checksums@[i],
                        job_id,
                        created_at,
                        conflict(
                            plan_routes(request.target_root@, request.template@, files@),
                            i,
                            request.target_root@,
                        ),
                    )
            },
        },
        r matches Ok(ops) ==> forall|i: int|
            0 <= i < ops.len() ==> has_prefix(#[trigger] ops@[i].dest_path@, request.target_root@),
        r matches Ok(ops) ==> forall|i: int, j: int|
            0 <= i < ops.len() && 0 <= j < ops.len() && i != j && #[trigger] ops@[i].status@
                == "pending"@ ==> ops@[i].dest_path@ != #[trigger] ops@[j].dest_path@,
        r matches Ok(ops) ==> forall|i: int|
            0 <= i < ops.len() && #[trigger] ops@[i].status@ == "pending"@ ==> {
                &&& !lies_under_any(ops@[i].dest_path@, route_sources(op_routes(ops@)))
                &&& unsafe_destination(
                    replace_all(ops@[i].dest_path@, seq!['/'], seq!['\\']),
                    request.target_root@,
                ) is None
            },
        r matches Ok(ops) ==> (!allows_cross_volume(*request) ==> forall|i: int|
            0 <= i < ops.len() ==> #[trigger] ops@[i].action@ != "copy_delete"@),
{
    let root = request.target_root.as_str();
    if !is_absolute(root) {
        return Err(
            AlexandriaError::BadRequest(String::from_str("target_root must be an absolute path")),
        );
    }
    let allow_cross = match request.allow_cross_volume {
        Some(b) => b,
        None => false,
    };
    let ghost routes = plan_routes(request.target_root@, request.template@, files@);
    let mut drafts: Vec<ReorgOperation> = Vec::new();
    let mut i: usize = 0;
    while i < files.len()
        invariant
            checksums.len() == files.len(),
            allow_cross == allows_cross_volume(*request),
            routes == plan_routes(request.target_root@, request.template@, files@),
            root@ == request.target_root@,
            i <= files.len(),
            drafts.len() == i,
            forall|j: int|
                0 <= j < i ==> is_planned_op(
                    #[trigger] drafts@[j],
                    files@[j],
                    draft_dest(request.target_root@, request.template@, files@[j]),
                    allow_cross,
                    checksums@[j],
                    job_id,
                    created_at,
                    None,
                ),
        decreases files.len() - i,
    {
        let op = draft_operation(
            root,
            request.template.as_str(),
            allow_cross,
            &files[i],
            &checksums[i],
            job_id,
            created_at,
        );
        drafts.push(op);
        i += 1;
    }
    assert(op_routes(drafts@) =~= routes);
    let ops = resolve_conflicts(drafts, root);
    proof {
        lemma_action_names_differ();
        assert forall|k: int| 0 <= k < ops.len() implies has_prefix(
            #[trigger] ops@[k].dest_path@,
            request.target_root@,
        ) by {
            lemma_build_from_extends_root(
                request.target_root@,
                split_on(spec_render_template(request.template@, plan_context(files@[k])), '/'),
            );
        }
        assert(op_routes(ops@) =~= routes);
    }
    Ok(ops)
}

/// A count of bytes as a signed number, `i64::MAX` when it does not fit.
pub fn clamp_to_i64(v: u64) -> (r: i64)
    ensures
        r == (if v <= i64::MAX as u64 {
            v as i64
        } else {
            i64::MAX
        }),
{
    if v <= i64::MAX as u64 {
        v as i64
    } else {
        i64::MAX
    }
}

/// The operations of a plan, given the id of the job that holds them.
pub fn assign_job_id(ops: Vec<ReorgOperation>, job_id: i64) -> (r: Vec<ReorgOperation>)
    ensures
        r.len() == ops.len(),
        forall|i: int|
            0 <= i < ops.len() ==> {
                &&& (#[trigger] r@[i]).job_id == job_id
                &&& r@[i].id == ops@[i].id
                &&& r@[i].file_id == ops@[i].file_id
                &&& r@[i].source_path == ops@[i].source_path
                &&& r@[i].dest_path == ops@[i].dest_path
                &&& r@[i].action == ops@[i].action
                &&& r@[i].status == ops@[i].status
                &&& r@[i].checksum_before == ops@[i].checksum_before
                &&& r@[i].checksum_after == ops@[i].checksum_after
                &&& r@[i].size_bytes == ops@[i].size_bytes
                &&& r@[i].error_message == ops@[i].error_message
                &&& r@[i].created_at == ops@[i].created_at
                &&& r@[i].executed_at == ops@[i].executed_at
            },
{
    let ghost original = ops@;
    let n = ops.len();
    let mut rest = ops;
    let mut out: Vec<ReorgOperation> = Vec::new();
    let mut i: usize = 0;
    while i < n
        invariant
            n == original.len(),
            i <= n,
            rest@ == original.skip(i as int),
            out.len() == i,
            forall|j: int|
                0 <= j < i ==> {
                    &&& (#[trigger] out@[j]).job_id == job_id
                    &&& out@[j].id == original[j].id
                    &&& out@[j].file_id == original[j].file_id
                    &&& out@[j].source_path == original[j].source_path
                    &&& out@[j].dest_path == original[j].dest_path
                    &&& out@[j].action == original[j].action
                    &&& out@[j].status == original[j].status
                    &&& out@[j].checksum_before == original[j].checksum_before
                    &&& out@[j].checksum_after == original[j].checksum_after
                    &&& out@[j].size_bytes == original[j].size_bytes
                    &&& out@[j].error_message == original[j].error_message
                    &&& out@[j].created_at == original[j].created_at
                    &&& out@[j].executed_at == original[j].executed_at
                },
        decreases n - i,
    {
        let mut op = rest.remove(0);
        assert(op == original[i as int]);
        assert(rest@ =~= original.skip(i + 1));
        op.job_id = job_id;
        out.push(op);
        i += 1;
    }
    out
}

/// The number of operations with status "failed".
pub open spec fn count_failed(ops: Seq<ReorgOperation>) -> nat
    decreases ops.len(),
{
    if ops.len() == 0 {
        0
    } else {
        count_failed(ops.drop_last()) + if ops.last().status@ == "failed"@ {
            1nat
        } else {
            0nat
        }
    }
}

/// The number of operations of a plan that failed while it was planned.
pub fn failed_operation_count(ops: &Vec<ReorgOperation>) -> (r: usize)
    ensures
        r == count_failed(ops@),
{
    let failed = str_chars("failed");
    let mut c: usize = 0;
    let mut i: usize = 0;
    while i < ops.len()
        invariant
            failed@ == "failed"@,
            i <= ops.len(),
            c == count_failed(ops@.take(i as int)),
            c <= i,
        decreases ops.len() - i,
    {
        assert(ops@.take(i + 1).drop_last() =~= ops@.take(i as int));
        let st = str_chars(ops[i].status.as_str());
        if chars_eq(&st, &failed) {
            c += 1;
        }
        i += 1;
    }
    assert(ops@.take(ops.len() as int) =~= ops@);
    c
}

} // verus!
