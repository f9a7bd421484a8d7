//! The reorganization template engine: token substitution, sanitization of
//! the rendered relative path, and joining it under a target root.
use crate::paths::push_component;
use crate::text::{
    chars_eq, chars_to_string, has_prefix, join, join_chars, lemma_join_prefix,
    lemma_split_join, lemma_trim_end_char, replace_all, replace_str, split_chars, split_on,
    str_chars, trim_end_char, views,
};
use vstd::prelude::*;

verus! {

/// Context available to the reorganization template engine.
#[derive(Debug, Clone, Default)]
pub struct TemplateContext {
    pub file_type: String,
    pub extension: String,
    pub name: String,
    pub ext: String,
    pub group_name: String,
    pub group_kind: String,
    pub year: String,
    pub month: String,
    pub day: String,
    pub tag: String,
}

/// The values of a template context.
pub ghost struct TemplateValues {
    pub file_type: Seq<char>,
    pub extension: Seq<char>,
    pub name: Seq<char>,
    pub ext: Seq<char>,
    pub group_name: Seq<char>,
    pub group_kind: Seq<char>,
    pub year: Seq<char>,
    pub month: Seq<char>,
    pub day: Seq<char>,
    pub tag: Seq<char>,
}

impl View for TemplateContext {
    type V = TemplateValues;

    open spec fn view(&self) -> TemplateValues {
        TemplateValues {
            file_type: self.file_type@,
            extension: self.extension@,
            name: self.name@,
            ext: self.ext@,
            group_name: self.group_name@,
            group_kind: self.group_kind@,
            year: self.year@,
            month: self.month@,
            day: self.day@,
            tag: self.tag@,
        }
    }
}

/// Characters that cannot stand in a file name on Windows, and the control
/// characters.
pub open spec fn is_forbidden_char(c: char) -> bool {
    ||| (c as u32) <= 0x1f
    ||| c == '<'
    ||| c == '>'
    ||| c == ':'
    ||| c == '"'
    ||| c == '/'
    ||| c == '\\'
    ||| c == '|'
    ||| c == '?'
    ||| c == '*'
}

/// Longest a sanitized component may be, in characters.
pub const MAX_COMPONENT_CHARS: usize = 200;

/// Every forbidden character replaced by '_'.
pub open spec fn replace_forbidden(s: Seq<char>) -> Seq<char> {
    s.map_values(|c: char| if is_forbidden_char(c) { '_' } else { c })
}

/// A sanitized file or folder name: forbidden characters become '_', trailing
/// dots are dropped and the name is cut to 200 characters, after which
/// trailing dots are dropped again, so that no sanitized name ends in a dot.
pub open spec fn spec_sanitize_component(s: Seq<char>) -> Seq<char> {
    let t = trim_end_char(replace_forbidden(s), '.');
    if t.len() > 200 {
        trim_end_char(t.take(200), '.')
    } else {
        t
    }
}

/// The sanitized pieces that are kept in a sanitized path, in order.
pub open spec fn sanitized_parts(parts: Seq<Seq<char>>) -> Seq<Seq<char>>
    decreases parts.len(),
{
    if parts.len() == 0 {
        Seq::empty()
    } else {
        let rest = sanitized_parts(parts.drop_last());
        let c = spec_sanitize_component(parts.last());
        if c.len() > 0 && c != seq!['.'] {
            rest.push(c)
        } else {
            rest
        }
    }
}

/// A sanitized '/'-separated relative path.
pub open spec fn spec_sanitize_path(s: Seq<char>) -> Seq<char> {
    join(sanitized_parts(split_on(s, '/')), seq!['/'])
}

/// The template with every token replaced by the sanitized value from the
/// context, in the order of the token list. A value is sanitized as one name,
/// so a '/' in it never opens a directory.
pub open spec fn substitute_tokens(t: Seq<char>, ctx: TemplateValues) -> Seq<char> {
    let t1 = replace_all(t, "{file_type}"@, spec_sanitize_component(ctx.file_type));
    let t2 = replace_all(t1, "{extension}"@, spec_sanitize_component(ctx.extension));
    let t3 = replace_all(t2, "{name}"@, spec_sanitize_component(ctx.name));
    let t4 = replace_all(t3, "{ext}"@, spec_sanitize_component(ctx.ext));
    let t5 = replace_all(t4, "{group_name}"@, spec_sanitize_component(ctx.group_name));
    let t6 = replace_all(t5, "{group_kind}"@, spec_sanitize_component(ctx.group_kind));
    let t7 = replace_all(t6, "{year}"@, spec_sanitize_component(ctx.year));
    let t8 = replace_all(t7, "{month}"@, spec_sanitize_component(ctx.month));
    let t9 = replace_all(t8, "{day}"@, spec_sanitize_component(ctx.day));
    replace_all(t9, "{tag}"@, spec_sanitize_component(ctx.tag))
}

/// The rendered template: tokens replaced by sanitized values, then the
/// whole path sanitized.
pub open spec fn spec_render_template(t: Seq<char>, ctx: TemplateValues) -> Seq<char> {
    spec_sanitize_path(substitute_tokens(t, ctx))
}

/// A relative path as `Path` reads it on Unix: not absolute and without a
/// parent-directory component.
pub open spec fn spec_is_safe_relative_path(s: Seq<char>) -> bool {
    &&& !(s.len() > 0 && s[0] == '/')
    &&& !split_on(s, '/').contains(seq!['.', '.'])
}

/// The target path: the root with each component of the relative path pushed
/// onto it, skipping empty, "." and ".." components.
pub open spec fn build_from(root: Seq<char>, parts: Seq<Seq<char>>) -> Seq<char>
    decreases parts.len(),
{
    if parts.len() == 0 {
        root
    } else {
        let p = build_from(root, parts.drop_last());
        let c = parts.last();
        if c.len() == 0 || c == seq!['.'] || c == seq!['.', '.'] {
            p
        } else {
            push_component(p, c)
        }
    }
}

/// The path made by pushing every piece, as collecting the pieces into a
/// `PathBuf` does.
pub open spec fn push_all(path: Seq<char>, parts: Seq<Seq<char>>) -> Seq<char>
    decreases parts.len(),
{
    if parts.len() == 0 {
        path
    } else {
        push_component(push_all(path, parts.drop_last()), parts.last())
    }
}

/// Render a template like "{file_type}/{name}.{ext}" into a relative path.
/// Tokens are replaced by sanitized values, so a '/' inside a value does not
/// open a directory, and the path is then sanitized. Directory separators are
/// '/'.
pub fn render_template(template: &str, ctx: &TemplateContext) -> (r: String)
    ensures
        r@ == spec_render_template(template@, ctx@),
{
    proof {
        reveal_strlit("{file_type}");
        reveal_strlit("{extension}");
        reveal_strlit("{name}");
        reveal_strlit("{ext}");
        reveal_strlit("{group_name}");
        reveal_strlit("{group_kind}");
        reveal_strlit("{year}");
        reveal_strlit("{month}");
        reveal_strlit("{day}");
        reveal_strlit("{tag}");
    }
    let v1 = sanitize_component(ctx.file_type.as_str());
    let r1 = replace_str(template, "{file_type}", v1.as_str());
    let v2 = sanitize_component(ctx.extension.as_str());
    let r2 = replace_str(r1.as_str(), "{extension}", v2.as_str());
    let v3 = sanitize_component(ctx.name.as_str());
    let r3 = replace_str(r2.as_str(), "{name}", v3.as_str());
    let v4 = sanitize_component(ctx.ext.as_str());
    let r4 = replace_str(r3.as_str(), "{ext}", v4.as_str());
    let v5 = sanitize_component(ctx.group_name.as_str());
    let r5 = replace_str(r4.as_str(), "{group_name}", v5.as_str());
    let v6 = sanitize_component(ctx.group_kind.as_str());
    let r6 = replace_str(r5.as_str(), "{group_kind}", v6.as_str());
    let v7 = sanitize_component(ctx.year.as_str());
    let r7 = replace_str(r6.as_str(), "{year}", v7.as_str());
    let v8 = sanitize_component(ctx.month.as_str());
    let r8 = replace_str(r7.as_str(), "{month}", v8.as_str());
    let v9 = sanitize_component(ctx.day.as_str());
    let r9 = replace_str(r8.as_str(), "{day}", v9.as_str());
    let v10 = sanitize_component(ctx.tag.as_str());
    let r10 = replace_str(r9.as_str(), "{tag}", v10.as_str());
    sanitize_path(r10.as_str())
}

/// Whether `c` is replaced when a name is sanitized.
fn forbidden_char(c: char) -> (r: bool)
    ensures
        r == is_forbidden_char(c),
{
    (c as u32) <= 0x1f || c == '<' || c == '>' || c == ':' || c == '"' || c == '/' || c == '\\'
        || c == '|' || c == '?' || c == '*'
}

/// `v` without its trailing dots.
fn drop_trailing_dots(v: &mut Vec<char>)
    ensures
        final(v)@ == trim_end_char(old(v)@, '.'),
    decreases old(v)@.len(),
{
    if v.len() > 0 && v[v.len() - 1] == '.' {
        let ghost before = v@;
        v.pop();
        assert(v@ =~= before.drop_last());
        drop_trailing_dots(v);
    }
}

/// A sanitized name, on characters.
fn sanitize_component_chars(input: &Vec<char>) -> (r: Vec<char>)
    ensures
        r@ == spec_sanitize_component(input@),
{
    let mut out: Vec<char> = Vec::new();
    let mut i: usize = 0;
    while i < input.len()
        invariant
            i <= input.len(),
            out@ == replace_forbidden(input@).take(i as int),
        decreases input.len() - i,
    {
        let c = input[i];
        if forbidden_char(c) {
            out.push('_');
        } else {
            out.push(c);
        }
        i += 1;
        assert(out@ =~= replace_forbidden(input@).take(i as int));
    }
    assert(replace_forbidden(input@).take(input.len() as int) =~= replace_forbidden(input@));
    drop_trailing_dots(&mut out);
    if out.len() > MAX_COMPONENT_CHARS {
        let mut cut: Vec<char> = Vec::new();
        let mut j: usize = 0;
        while j < MAX_COMPONENT_CHARS
            invariant
                out.len() > 200,
                j <= 200,
                cut@ == out@.take(j as int),
            decreases 200 - j,
        {
            cut.push(out[j]);
            j += 1;
            assert(cut@ =~= out@.take(j as int));
        }
        drop_trailing_dots(&mut cut);
        cut
    } else {
        out
    }
}

/// Sanitize a single file or folder name.
/// - Replaces characters illegal on Windows (`< > : " / \ | ? *`) and control
///   characters (`0x00-0x1f`) by `_`.
/// - Removes trailing dots.
/// - Caps length at 200 characters.
pub fn sanitize_component(input: &str) -> (r: String)
    ensures
        r@ == spec_sanitize_component(input@),
{
    let v = str_chars(input);
    let out = sanitize_component_chars(&v);
    chars_to_string(&out)
}

/// Sanitize a relative path. Each path component gets cleaned individually so
/// that directory separators are preserved; components that end up empty are
/// dropped.
pub fn sanitize_path(input: &str) -> (r: String)
    ensures
        r@ == spec_sanitize_path(input@),
{
    let v = str_chars(input);
    let parts = split_chars(&v, '/');
    let dot: Vec<char> = vec!['.'];
    assert(dot@ =~= seq!['.']);
    let mut kept: Vec<Vec<char>> = Vec::new();
    let mut i: usize = 0;
    while i < parts.len()
        invariant
            i <= parts.len(),
            dot@ == seq!['.'],
            views(kept@) == sanitized_parts(views(parts@).take(i as int)),
        decreases parts.len() - i,
    {
        assert(views(parts@).take(i + 1).drop_last() =~= views(parts@).take(i as int));
        assert(views(parts@).take(i + 1).last() == parts@[i as int]@);
        let cleaned = sanitize_component_chars(&parts[i]);
        if cleaned.len() != 0 && !chars_eq(&cleaned, &dot) {
            let ghost before = views(kept@);
            kept.push(cleaned);
            assert(views(kept@) =~= before.push(kept@.last()@));
        }
        i += 1;
    }
    assert(views(parts@).take(parts.len() as int) =~= views(parts@));
    let slash: Vec<char> = vec!['/'];
    assert(slash@ =~= seq!['/']);
    let out = join_chars(&kept, &slash);
    chars_to_string(&out)
}

/// Convert a '/'-separated relative path into a path of the host, here the
/// Unix form: every piece is pushed in turn, as collecting the pieces into a
/// `PathBuf` does.
pub fn to_os_relative_path(relative: &str) -> (r: String)
    ensures
        r@ == push_all(Seq::empty(), split_on(relative@, '/')),
{
    let v = str_chars(relative);
    let parts = split_chars(&v, '/');
    let mut path: Vec<char> = Vec::new();
    let mut i: usize = 0;
    while i < parts.len()
        invariant
            i <= parts.len(),
            path@ == push_all(Seq::empty(), views(parts@).take(i as int)),
        decreases parts.len() - i,
    {
        assert(views(parts@).take(i + 1).drop_last() =~= views(parts@).take(i as int));
        assert(views(parts@).take(i + 1).last() == parts@[i as int]@);
        path = crate::paths::push_component_chars(&path, &parts[i]);
        i += 1;
    }
    assert(views(parts@).take(parts.len() as int) =~= views(parts@));
    chars_to_string(&path)
}

/// Join a target root with a relative rendered path and return the target
/// path. Empty, "." and ".." components of the relative path are skipped.
pub fn build_target_path(target_root: &str, relative: &str) -> (r: String)
    ensures
        r@ == build_from(target_root@, split_on(relative@, '/')),
{
    let v = str_chars(relative);
    let parts = split_chars(&v, '/');
    let mut path = str_chars(target_root);
    let dot: Vec<char> = vec!['.'];
    let dotdot: Vec<char> = vec!['.', '.'];
    assert(dot@ =~= seq!['.']);
    assert(dotdot@ =~= seq!['.', '.']);
    let mut i: usize = 0;
    while i < parts.len()
        invariant
            i <= parts.len(),
            dot@ == seq!['.'],
            dotdot@ == seq!['.', '.'],
            path@ == build_from(target_root@, views(parts@).take(i as int)),
        decreases parts.len() - i,
    {
        assert(views(parts@).take(i + 1).drop_last() =~= views(parts@).take(i as int));
        assert(views(parts@).take(i + 1).last() == parts@[i as int]@);
        let c = &parts[i];
        if c.len() == 0 || chars_eq(c, &dot) || chars_eq(c, &dotdot) {
        } else {
            path = crate::paths::push_component_chars(&path, c);
        }
        i += 1;
    }
    assert(views(parts@).take(parts.len() as int) =~= views(parts@));
    chars_to_string(&path)
}

/// Ensure the path is relative and does not contain parent directory
/// traversal.
pub fn is_safe_relative_path(path: &str) -> (r: bool)
    ensures
        r == spec_is_safe_relative_path(path@),
{
    let v = str_chars(path);
    if v.len() > 0 && v[0] == '/' {
        return false;
    }
    let parts = split_chars(&v, '/');
    let dotdot: Vec<char> = vec!['.', '.'];
    assert(dotdot@ =~= seq!['.', '.']);
    let mut i: usize = 0;
    while i < parts.len()
        invariant
            i <= parts.len(),
            dotdot@ == seq!['.', '.'],
            v@ == path@,
            views(parts@) == split_on(v@, '/'),
            forall|j: int| 0 <= j < i ==> views(parts@)[j] != seq!['.', '.'],
        decreases parts.len() - i,
    {
        if chars_eq(&parts[i], &dotdot) {
            assert(views(parts@)[i as int] == parts@[i as int]@);
            assert(split_on(v@, '/')[i as int] == seq!['.', '.']);
            assert(split_on(v@, '/').contains(seq!['.', '.']));
            return false;
        }
        i += 1;
    }
    assert(!split_on(v@, '/').contains(seq!['.', '.']));
    true
}

/// A sanitized name holds no '/' and does not end in a dot.
pub proof fn lemma_sanitized_component_shape(s: Seq<char>)
    ensures
        forall|j: int|
            0 <= j < spec_sanitize_component(s).len() ==> !is_forbidden_char(
                #[trigger] spec_sanitize_component(s)[j],
            ),
        spec_sanitize_component(s).len() == 0 || spec_sanitize_component(s).last() != '.',
        spec_sanitize_component(s).len() <= 200,
{
    let m = replace_forbidden(s);
    lemma_trim_end_char(m, '.');
    let t = trim_end_char(m, '.');
    assert forall|j: int| 0 <= j < t.len() implies !is_forbidden_char(#[trigger] t[j]) by {
        assert(t[j] == m[j]);
    }
    if t.len() > 200 {
        let u = t.take(200);
        lemma_trim_end_char(u, '.');
        let w = trim_end_char(u, '.');
        assert forall|j: int| 0 <= j < w.len() implies !is_forbidden_char(#[trigger] w[j]) by {
            assert(w[j] == u[j]);
        }
    }
}

/// Every kept piece of a sanitized path is non-empty, holds no '/' and is not
/// "..".
proof fn lemma_sanitized_parts_shape(parts: Seq<Seq<char>>)
    ensures
        forall|k: int|
            0 <= k < sanitized_parts(parts).len() ==> {
                &&& (#[trigger] sanitized_parts(parts)[k]).len() > 0
                &&& sanitized_parts(parts)[k] != seq!['.', '.']
                &&& forall|j: int|
                    0 <= j < sanitized_parts(parts)[k].len() ==> sanitized_parts(parts)[k][j]
                        != '/'
            },
    decreases parts.len(),
{
    if parts.len() > 0 {
        lemma_sanitized_parts_shape(parts.drop_last());
        lemma_sanitized_component_shape(parts.last());
        let c = spec_sanitize_component(parts.last());
        if c == seq!['.', '.'] {
            assert(c.last() == '.');
        }
        assert forall|j: int| 0 <= j < c.len() implies c[j] != '/' by {
            assert(!is_forbidden_char(c[j]));
        }
        let rest = sanitized_parts(parts.drop_last());
        let r = sanitized_parts(parts);
        assert forall|k: int| 0 <= k < r.len() implies {
            &&& (#[trigger] r[k]).len() > 0
            &&& r[k] != seq!['.', '.']
            &&& forall|j: int| 0 <= j < r[k].len() ==> r[k][j] != '/'
        } by {
            if k < rest.len() {
                assert(r[k] == rest[k]);
            } else {
                assert(r[k] == c);
            }
        }
    }
}

/// A sanitized path is always a safe relative path: it is not absolute and
/// has no parent-directory component, whatever was sanitized.
pub proof fn lemma_sanitized_path_is_safe(s: Seq<char>)
    ensures
        spec_is_safe_relative_path(spec_sanitize_path(s)),
{
    let parts = sanitized_parts(split_on(s, '/'));
    lemma_sanitized_parts_shape(split_on(s, '/'));
    let out = spec_sanitize_path(s);
    if parts.len() == 0 {
        assert(out =~= Seq::<char>::empty());
        assert(split_on(out, '/') =~= seq![Seq::<char>::empty()]);
        assert(seq![Seq::<char>::empty()][0] != seq!['.', '.']);
    } else {
        lemma_split_join(parts, '/');
        lemma_join_prefix(parts, seq!['/']);
        assert(parts[0].len() > 0);
        assert(out[0] == out.take(parts[0].len() as int)[0]);
        assert(out[0] == parts[0][0]);
        if split_on(out, '/').contains(seq!['.', '.']) {
            let k = choose|k: int| 0 <= k < parts.len() && parts[k] == seq!['.', '.'];
            assert(parts[k] != seq!['.', '.']);
        }
    }
}

/// Every kept piece of a sanitized path is the sanitized form of one of the
/// pieces it came from, is neither "." nor empty, and the kept pieces keep the
/// order of the pieces they came from.
proof fn lemma_sanitized_parts_origin(parts: Seq<Seq<char>>)
    ensures
        sanitized_parts(parts).len() <= parts.len(),
        forall|k: int|
            0 <= k < sanitized_parts(parts).len() ==> #[trigger] sanitized_parts(parts)[k]
                != seq!['.'],
        forall|k: int|
            0 <= k < sanitized_parts(parts).len() ==> exists|j: int|
                0 <= j < parts.len() && #[trigger] sanitized_parts(parts)[k]
                    == spec_sanitize_component(parts[j]),
    decreases parts.len(),
{
    if parts.len() > 0 {
        let front = parts.drop_last();
        lemma_sanitized_parts_origin(front);
        let rest = sanitized_parts(front);
        let r = sanitized_parts(parts);
        assert forall|k: int| 0 <= k < r.len() implies exists|j: int|
            0 <= j < parts.len() && #[trigger] r[k] == spec_sanitize_component(parts[j]) by {
            if k < rest.len() {
                assert(r[k] == rest[k]);
                let j = choose|j: int| 0 <= j < front.len() && rest[k] == spec_sanitize_component(front[j]);
                assert(front[j] == parts[j]);
            } else {
                assert(r[k] == spec_sanitize_component(parts[parts.len() - 1]));
            }
        }
        assert forall|k: int| 0 <= k < r.len() implies #[trigger] r[k] != seq!['.'] by {
            if k < rest.len() {
                assert(r[k] == rest[k]);
            }
        }
    }
}

/// The components of a sanitized path: splitting it at '/' gives back the
/// kept pieces, each of them the sanitized form of a piece of the input,
/// non-empty, neither "." nor "..", and free of '/'. The path is empty
/// exactly when no piece was kept.
pub proof fn lemma_sanitized_path_components(s: Seq<char>)
    ensures
        ({
            let out = spec_sanitize_path(s);
            let parts = sanitized_parts(split_on(s, '/'));
            &&& (out.len() == 0 <==> parts.len() == 0)
            &&& (parts.len() > 0 ==> split_on(out, '/') == parts)
            &&& forall|k: int|
                0 <= k < parts.len() ==> {
                    &&& (#[trigger] parts[k]).len() > 0
                    &&& parts[k] != seq!['.']
                    &&& parts[k] != seq!['.', '.']
                    &&& forall|j: int| 0 <= j < parts[k].len() ==> parts[k][j] != '/'
                    &&& exists|j: int|
                        0 <= j < split_on(s, '/').len() && parts[k] == spec_sanitize_component(
                            split_on(s, '/')[j],
                        )
                }
        }),
{
    let pieces = split_on(s, '/');
    let parts = sanitized_parts(pieces);
    lemma_sanitized_parts_shape(pieces);
    lemma_sanitized_parts_origin(pieces);
    let out = spec_sanitize_path(s);
    if parts.len() == 0 {
        assert(out =~= Seq::<char>::empty());
    } else {
        lemma_split_join(parts, '/');
        lemma_join_prefix(parts, seq!['/']);
        assert(parts[0].len() > 0);
        assert(out.take(parts[0].len() as int).len() > 0);
    }
    assert forall|k: int| 0 <= k < parts.len() implies {
        &&& (#[trigger] parts[k]).len() > 0
        &&& parts[k] != seq!['.']
        &&& parts[k] != seq!['.', '.']
        &&& forall|j: int| 0 <= j < parts[k].len() ==> parts[k][j] != '/'
        &&& exists|j: int|
            0 <= j < split_on(s, '/').len() && parts[k] == spec_sanitize_component(
                split_on(s, '/')[j],
            )
    } by {
        let j = choose|j: int| 0 <= j < pieces.len() && parts[k] == spec_sanitize_component(pieces[j]);
    }
}

/// Whatever the template and context, the rendered relative path is safe:
/// neither absolute nor escaping through "..".
pub proof fn lemma_rendered_path_is_safe(template: Seq<char>, ctx: TemplateValues)
    ensures
        spec_is_safe_relative_path(spec_render_template(template, ctx)),
{
    lemma_sanitized_path_is_safe(substitute_tokens(template, ctx));
}

/// Sanitizing a name twice gives the same name as sanitizing it once.
pub proof fn lemma_sanitize_component_idempotent(s: Seq<char>)
    ensures
        spec_sanitize_component(spec_sanitize_component(s)) == spec_sanitize_component(s),
{
    let a = spec_sanitize_component(s);
    lemma_sanitized_component_shape(s);
    let m = replace_forbidden(a);
    assert(m =~= a);
    assert(trim_end_char(a, '.') == a);
}

/// A target path built under a root starts with that root.
pub proof fn lemma_build_from_extends_root(root: Seq<char>, parts: Seq<Seq<char>>)
    ensures
        has_prefix(build_from(root, parts), root),
        build_from(root, parts).len() >= root.len(),
    decreases parts.len(),
{
    if parts.len() == 0 {
        assert(root.take(root.len() as int) =~= root);
    } else {
        lemma_build_from_extends_root(root, parts.drop_last());
        let p = build_from(root, parts.drop_last());
        let c = parts.last();
        if !(c.len() == 0 || c == seq!['.'] || c == seq!['.', '.']) {
            let q = push_component(p, c);
            let x = if p.len() == 0 || p.last() == '/' {
                c
            } else {
                seq!['/'] + c
            };
            assert(q =~= p + x);
            assert((p + x).take(root.len() as int) =~= p.take(root.len() as int));
        }
    }
}


/// A character that may stand in a Windows file name: not a control
/// character 0x00-0x1f and none of < > : " / \ | ? *.
pub open spec fn legal_name_char(c: char) -> bool {
    &&& (c as u32) > 0x1f
    &&& c != '<'
    &&& c != '>'
    &&& c != ':'
    &&& c != '"'
    &&& c != '/'
    &&& c != '\\'
    &&& c != '|'
    &&& c != '?'
    &&& c != '*'
}

/// Sanitizing a name keeps every legal character in place and turns every
/// other one into '_': the result is a prefix of the name with only its
/// illegal characters replaced.
pub proof fn lemma_sanitize_changes_only_illegal(s: Seq<char>)
    ensures
        spec_sanitize_component(s).len() <= s.len(),
        forall|i: int|
            0 <= i < spec_sanitize_component(s).len() ==> (#[trigger] spec_sanitize_component(s)[i])
                == (if legal_name_char(s[i]) {
                s[i]
            } else {
                '_'
            }),
{
    let m = replace_forbidden(s);
    lemma_trim_end_char(m, '.');
    let t = trim_end_char(m, '.');
    let r = spec_sanitize_component(s);
    if t.len() > 200 {
        lemma_trim_end_char(t.take(200), '.');
        let w = trim_end_char(t.take(200), '.');
        assert forall|i: int| 0 <= i < r.len() implies (#[trigger] r[i]) == (if legal_name_char(s[i]) {
            s[i]
        } else {
            '_'
        }) by {
            assert(r[i] == t.take(200)[i]);
            assert(t[i] == m[i]);
        }
    } else {
        assert forall|i: int| 0 <= i < r.len() implies (#[trigger] r[i]) == (if legal_name_char(s[i]) {
            s[i]
        } else {
            '_'
        }) by {
            assert(t[i] == m[i]);
        }
    }
}

/// A name of at most 200 characters that holds only legal characters and
/// does not end in '.' is its own sanitization.
pub proof fn lemma_legal_name_is_kept(s: Seq<char>)
    requires
        s.len() <= 200,
        forall|i: int| 0 <= i < s.len() ==> legal_name_char(#[trigger] s[i]),
        s.len() == 0 || s.last() != '.',
    ensures
        spec_sanitize_component(s) == s,
{
    let m = replace_forbidden(s);
    assert(m =~= s);
    assert(trim_end_char(m, '.') == m);
}

} // verus!
