//! Grouping of files by name: episodes of a series, versions of a movie, and
//! collections sharing the first words of their names. The patterns are
//! regular expressions run by the `regex` crate.
use crate::paths::chars_last_index_of;
use crate::text::{
    lemma_split_join, split_on,
    chars_to_string, collapse_white, join, join_chars, last_index_of, map_chars, map_chars_in,
    replace_all, replace_chars, str_chars, to_lowercase, trim, trim_chars, unicode_lowercase,
    utf8_byte_len, utf8_len, views, words, words_of, words_from, trim_start, trim_end,
    is_white_space,
};
use vstd::prelude::*;

verus! {

/// The kind of a group.
#[derive(Debug, Clone, Copy, PartialEq, Eq, Structural)]
pub enum GroupKind {
    Series,
    Movie,
    Collection,
}

/// The name of a group kind.
pub open spec fn kind_name(k: GroupKind) -> Seq<char> {
    match k {
        GroupKind::Series => "series"@,
        GroupKind::Movie => "movie"@,
        GroupKind::Collection => "collection"@,
    }
}

impl GroupKind {
    /// The name of the kind.
    pub fn as_str(&self) -> (r: &'static str)
        ensures
            r@ == kind_name(*self),
    {
        match self {
            GroupKind::Series => "series",
            GroupKind::Movie => "movie",
            GroupKind::Collection => "collection",
        }
    }
}

/// Result of matching a filename against a group rule.
#[derive(Debug, Clone, PartialEq)]
pub struct MatchResult {
    pub kind: GroupKind,
    pub canonical_name: String,
    pub display_name: String,
}

/// Calls `Regex::replace_all` with the pattern `\s+` and the replacement
/// " ". `\s` is Unicode `White_Space`, so every maximal run of white space
/// becomes one space; that is what is stated.
#[verifier::external_body]
fn collapse_spaces(s: &str) -> (r: String)
    ensures
        r@ == collapse_white(s@),
{
    regex::Regex::new(r"\s+").unwrap().replace_all(s, " ").to_string()
}

/// Name for what `Regex::replace_all` gives for the release-tag pattern
/// `\b(1080p|720p|2160p|4k|8k|hdr|dv|blu-?ray|remux|web-?dl|webrip|hdtv|x264|x265|hevc|avc|aac|dts|hdma|truehd|atmos)\b`
/// with the replacement " ".
pub uninterp spec fn without_release_tags(s: Seq<char>) -> Seq<char>;

/// Replaces the whole-word quality and release tags of `s` by a space;
/// every character of the result is a space or one of `s`.
#[verifier::external_body]
fn strip_release_tags(s: &str) -> (r: String)
    ensures
        r@ == without_release_tags(s@),
        forall|i: int| 0 <= i < r@.len() ==> r@[i] == ' ' || s@.contains(#[trigger] r@[i]),
{
    regex::Regex::new(
        r"\b(1080p|720p|2160p|4k|8k|hdr|dv|blu-?ray|remux|web-?dl|webrip|hdtv|x264|x265|hevc|avc|aac|dts|hdma|truehd|atmos)\b",
    ).unwrap().replace_all(s, " ").to_string()
}

/// Name for what `Regex::replace_all` gives for the pattern
/// `[\(\[\{].*?[\)\]\}]` with the replacement " ".
pub uninterp spec fn without_brackets(s: Seq<char>) -> Seq<char>;

/// Replaces each bracketed part of `s` by a space; every character of the
/// result is a space or one of `s`.
#[verifier::external_body]
fn strip_brackets(s: &str) -> (r: String)
    ensures
        r@ == without_brackets(s@),
        forall|i: int| 0 <= i < r@.len() ==> r@[i] == ' ' || s@.contains(#[trigger] r@[i]),
{
    regex::Regex::new(r"[\(\[\{].*?[\)\]\}]").unwrap().replace_all(s, " ").to_string()
}

/// Name for the text before the first match of the episode marker pattern
/// `(?i)[.\s-]+[Ss]?(\d{1,2})[Eex](\d{1,2})` (`Regex::find`), `None` when
/// there is no match.
pub uninterp spec fn before_episode_marker(s: Seq<char>) -> Option<Seq<char>>;

/// The text of a name before its episode marker, such as " S01E02" or
/// ".1x02", if it has one.
#[verifier::external_body]
fn episode_title_prefix(name: &str) -> (r: Option<String>)
    ensures
        match r {
            Some(p) => before_episode_marker(name@) == Some(p@),
            None => before_episode_marker(name@) is None,
        },
{
    match regex::Regex::new(r"(?i)[.\s-]+[Ss]?(\d{1,2})[Eex](\d{1,2})").unwrap().find(name) {
        Some(m) => Some(name[..m.start()].to_string()),
        None => None,
    }
}

/// Name for what `Regex::is_match` gives for the year pattern
/// `\b(19\d{2}|20\d{2})\b`.
pub uninterp spec fn mentions_year(s: Seq<char>) -> bool;

/// Whether `s` holds a whole-word year from 1900 to 2099.
#[verifier::external_body]
fn has_year(s: &str) -> (r: bool)
    ensures
        r == mentions_year(s@),
{
    regex::Regex::new(r"\b(19\d{2}|20\d{2})\b").unwrap().is_match(s)
}

/// Name for what `Regex::replace_all` gives for the year pattern
/// `\b(19\d{2}|20\d{2})\b` with the replacement " ".
pub uninterp spec fn without_years(s: Seq<char>) -> Seq<char>;

/// Replaces each whole-word year of `s` by a space; every character of the
/// result is a space or one of `s`.
#[verifier::external_body]
fn strip_years(s: &str) -> (r: String)
    ensures
        r@ == without_years(s@),
        forall|i: int| 0 <= i < r@.len() ==> r@[i] == ' ' || s@.contains(#[trigger] r@[i]),
{
    regex::Regex::new(r"\b(19\d{2}|20\d{2})\b").unwrap().replace_all(s, " ").to_string()
}

/// Name for what `Regex::replace_all` gives for the edition pattern
/// `\b(director|directors|extended|uncut|remastered|theatrical|ultimate|final|cut|edition|version|part|vol|volume)\b`
/// with the replacement " ".
pub uninterp spec fn without_edition_words(s: Seq<char>) -> Seq<char>;

/// Replaces each whole-word edition marker of `s` by a space; every
/// character of the result is a space or one of `s`.
#[verifier::external_body]
fn strip_edition_words(s: &str) -> (r: String)
    ensures
        r@ == without_edition_words(s@),
        forall|i: int| 0 <= i < r@.len() ==> r@[i] == ' ' || s@.contains(#[trigger] r@[i]),
{
    regex::Regex::new(
        r"\b(director|directors|extended|uncut|remastered|theatrical|ultimate|final|cut|edition|version|part|vol|volume)\b",
    ).unwrap().replace_all(s, " ").to_string()
}

/// The separators a name's words may be joined with.
pub open spec fn separator_chars() -> Seq<char> {
    seq!['.', '_', '-']
}

/// Whether `c` is one of the separators.
pub open spec fn is_separator(c: char) -> bool {
    c == '.' || c == '_' || c == '-'
}

/// Whether `s` holds no separator.
pub open spec fn free_of_separators(s: Seq<char>) -> bool {
    forall|i: int| 0 <= i < s.len() ==> !is_separator(#[trigger] s[i])
}

/// A display name as every match has one: not empty and without
/// separators.
pub open spec fn plain_display(d: Seq<char>) -> bool {
    d.len() > 0 && free_of_separators(d)
}

/// Separators turned into spaces leave none.
proof fn lemma_spaced_free(s: Seq<char>)
    ensures
        free_of_separators(map_chars_in(s, separator_chars(), ' ')),
{
    let m = map_chars_in(s, separator_chars(), ' ');
    assert forall|i: int| 0 <= i < m.len() implies !is_separator(#[trigger] m[i]) by {
        if is_separator(s[i]) {
            assert(separator_chars().contains(s[i])) by {
                if s[i] == '.' {
                    assert(separator_chars()[0] == s[i]);
                } else if s[i] == '_' {
                    assert(separator_chars()[1] == s[i]);
                } else {
                    assert(separator_chars()[2] == s[i]);
                }
            }
        }
    }
}

/// A text made of spaces and characters of a text free of separators is
/// free of them.
proof fn lemma_drawn_free(s: Seq<char>, r: Seq<char>)
    requires
        free_of_separators(s),
        forall|i: int| 0 <= i < r.len() ==> r[i] == ' ' || s.contains(#[trigger] r[i]),
    ensures
        free_of_separators(r),
{
    assert forall|i: int| 0 <= i < r.len() implies !is_separator(#[trigger] r[i]) by {
        if r[i] != ' ' {
            assert(s.contains(r[i]));
            let j = choose|j: int| 0 <= j < s.len() && s[j] == r[i];
            assert(!is_separator(s[j]));
        }
    }
}

/// Trimming keeps a text free of separators.
proof fn lemma_trim_free(s: Seq<char>)
    requires
        free_of_separators(s),
    ensures
        free_of_separators(trim_start(s)),
        free_of_separators(trim_end(s)),
        free_of_separators(trim(s)),
    decreases s.len(),
{
    if s.len() > 0 {
        let a = s.drop_first();
        assert forall|i: int| 0 <= i < a.len() implies !is_separator(#[trigger] a[i]) by {
            assert(a[i] == s[i + 1]);
        }
        let b = s.drop_last();
        assert forall|i: int| 0 <= i < b.len() implies !is_separator(#[trigger] b[i]) by {
            assert(b[i] == s[i]);
        }
        lemma_trim_free(a);
        lemma_trim_free(b);
    }
    if trim_start(s).len() > 0 {
        lemma_trim_free_end(trim_start(s));
    }
}

/// Trimming the end keeps a text free of separators.
proof fn lemma_trim_free_end(s: Seq<char>)
    requires
        free_of_separators(s),
    ensures
        free_of_separators(trim_end(s)),
    decreases s.len(),
{
    if s.len() > 0 {
        let b = s.drop_last();
        assert forall|i: int| 0 <= i < b.len() implies !is_separator(#[trigger] b[i]) by {
            assert(b[i] == s[i]);
        }
        lemma_trim_free_end(b);
    }
}

/// Collapsing white space keeps a text free of separators.
proof fn lemma_collapse_free(s: Seq<char>)
    requires
        free_of_separators(s),
    ensures
        free_of_separators(collapse_white(s)),
    decreases s.len(),
{
    if s.len() > 0 {
        let b = s.drop_last();
        assert forall|i: int| 0 <= i < b.len() implies !is_separator(#[trigger] b[i]) by {
            assert(b[i] == s[i]);
        }
        lemma_collapse_free(b);
        let prev = collapse_white(b);
        let c = collapse_white(s);
        assert forall|i: int| 0 <= i < c.len() implies !is_separator(#[trigger] c[i]) by {
            if i < prev.len() {
                assert(c[i] == prev[i]);
            }
        }
    }
}

/// The words of a text free of separators are free of them.
proof fn lemma_words_free(s: Seq<char>, i: int, cur: Seq<char>)
    requires
        free_of_separators(s),
        free_of_separators(cur),
    ensures
        forall|k: int|
            0 <= k < words_from(s, i, cur).len() ==> free_of_separators(
                #[trigger] words_from(s, i, cur)[k],
            ),
    decreases s.len() - i,
{
    let w = words_from(s, i, cur);
    if i < 0 || i >= s.len() {
        if cur.len() > 0 {
            assert(w == seq![cur]);
            assert forall|k: int| 0 <= k < w.len() implies free_of_separators(#[trigger] w[k]) by {
                assert(w[k] == cur);
            }
        } else {
            assert(w.len() == 0);
        }
    } else if is_white_space(s[i]) {
        lemma_words_free(s, i + 1, Seq::empty());
        let rest = words_from(s, i + 1, Seq::empty());
        if cur.len() > 0 {
            assert(w == seq![cur] + rest);
            assert forall|k: int| 0 <= k < w.len() implies free_of_separators(#[trigger] w[k]) by {
                if k > 0 {
                    assert(w[k] == rest[k - 1]);
                } else {
                    assert(w[k] == cur);
                }
            }
        } else {
            assert(w == rest);
        }
    } else {
        let next = cur.push(s[i]);
        assert forall|j: int| 0 <= j < next.len() implies !is_separator(#[trigger] next[j]) by {
            if j < cur.len() {
                assert(next[j] == cur[j]);
            }
        }
        lemma_words_free(s, i + 1, next);
        assert(w == words_from(s, i + 1, next));
    }
}

/// No word holds a space.
proof fn lemma_words_no_space(s: Seq<char>, i: int, cur: Seq<char>)
    requires
        forall|j: int| 0 <= j < cur.len() ==> #[trigger] cur[j] != ' ',
    ensures
        forall|k: int, j: int|
            0 <= k < words_from(s, i, cur).len() && 0 <= j < words_from(s, i, cur)[k].len()
                ==> words_from(s, i, cur)[k][j] != ' ',
    decreases s.len() - i,
{
    let w = words_from(s, i, cur);
    if i < 0 || i >= s.len() {
        if cur.len() > 0 {
            assert(w == seq![cur]);
        } else {
            assert(w.len() == 0);
        }
    } else if is_white_space(s[i]) {
        lemma_words_no_space(s, i + 1, Seq::empty());
        let rest = words_from(s, i + 1, Seq::empty());
        if cur.len() > 0 {
            assert(w == seq![cur] + rest);
            assert forall|k: int, j: int| 0 <= k < w.len() && 0 <= j < w[k].len() implies w[k][j]
                != ' ' by {
                if k > 0 {
                    assert(w[k] == rest[k - 1]);
                } else {
                    assert(w[k] == cur);
                }
            }
        } else {
            assert(w == rest);
        }
    } else {
        let next = cur.push(s[i]);
        assert(is_white_space(' '));
        assert forall|j: int| 0 <= j < next.len() implies #[trigger] next[j] != ' ' by {
            if j < cur.len() {
                assert(next[j] == cur[j]);
            }
        }
        lemma_words_no_space(s, i + 1, next);
        assert(w == words_from(s, i + 1, next));
    }
}

/// Words free of separators joined by spaces are free of them.
proof fn lemma_join_free(parts: Seq<Seq<char>>)
    requires
        forall|k: int| 0 <= k < parts.len() ==> free_of_separators(#[trigger] parts[k]),
    ensures
        free_of_separators(join(parts, seq![' '])),
    decreases parts.len(),
{
    if parts.len() > 1 {
        let front = parts.drop_last();
        assert forall|k: int| 0 <= k < front.len() implies free_of_separators(#[trigger] front[k]) by {
            assert(front[k] == parts[k]);
        }
        lemma_join_free(front);
        let a = join(front, seq![' ']);
        let l = parts.last();
        assert(free_of_separators(l)) by {
            assert(l == parts[parts.len() - 1]);
        }
        let j = join(parts, seq![' ']);
        assert(j == a + seq![' '] + l);
        assert forall|i: int| 0 <= i < j.len() implies !is_separator(#[trigger] j[i]) by {
            if i < a.len() {
                assert(j[i] == a[i]);
            } else if i == a.len() {
                assert(j[i] == ' ');
            } else {
                assert(j[i] == l[i - a.len() - 1]);
            }
        }
    } else if parts.len() == 1 {
        assert(free_of_separators(parts[0]));
    }
}

/// A name without the text after its last dot.
pub open spec fn before_last_dot(name: Seq<char>) -> Seq<char> {
    match last_index_of(name, '.') {
        Some(k) => name.take(k),
        None => name,
    }
}

/// A name without extension, lowercased, its separators turned into spaces,
/// runs of white space collapsed and the ends trimmed.
pub open spec fn spec_normalize_separators(name: Seq<char>) -> Seq<char> {
    trim(
        collapse_white(
            map_chars_in(unicode_lowercase(before_last_dot(name)), separator_chars(), ' '),
        ),
    )
}

/// A title lowercased, its separators turned into spaces, its release tags
/// and bracketed parts removed, runs of white space collapsed and the ends
/// trimmed.
pub open spec fn spec_clean_title(name: Seq<char>) -> Seq<char> {
    trim(
        collapse_white(
            without_brackets(
                without_release_tags(
                    map_chars_in(unicode_lowercase(name), separator_chars(), ' '),
                ),
            ),
        ),
    )
}

/// `s` with its spaces turned into dots.
pub open spec fn dotted(s: Seq<char>) -> Seq<char> {
    replace_all(s, seq![' '], seq!['.'])
}

/// The separators, as characters.
fn separators() -> (r: Vec<char>)
    ensures
        r@ == separator_chars(),
{
    let v: Vec<char> = vec!['.', '_', '-'];
    assert(v@ =~= separator_chars());
    v
}

/// Remove file extension, lowercase, and normalize separators.
pub fn normalize_separators(name: &str) -> (r: String)
    ensures
        r@ == spec_normalize_separators(name@),
{
    let v = str_chars(name);
    let base = match chars_last_index_of(&v, '.') {
        Some(k) => {
            let mut b: Vec<char> = Vec::new();
            let mut i: usize = 0;
            while i < k
                invariant
                    k < v.len(),
                    i <= k,
                    b@ == v@.take(i as int),
                decreases k - i,
            {
                b.push(v[i]);
                i += 1;
                assert(b@ =~= v@.take(i as int));
            }
            b
        },
        None => v.clone(),
    };
    let base_s = chars_to_string(&base);
    let lower = to_lowercase(base_s.as_str());
    let spaced = map_chars(&str_chars(lower.as_str()), &separators(), ' ');
    let collapsed = collapse_spaces(chars_to_string(&spaced).as_str());
    let out = trim_chars(&str_chars(collapsed.as_str()));
    chars_to_string(&out)
}

/// Clean a title by removing metadata tokens (quality, release tags,
/// brackets).
pub fn clean_title(name: &str) -> (r: String)
    ensures
        r@ == spec_clean_title(name@),
        free_of_separators(r@),
{
    let lower = to_lowercase(name);
    let spaced = map_chars(&str_chars(lower.as_str()), &separators(), ' ');
    let spaced_s = chars_to_string(&spaced);
    let untagged = strip_release_tags(spaced_s.as_str());
    let unbracketed = strip_brackets(untagged.as_str());
    let collapsed = collapse_spaces(unbracketed.as_str());
    let out = trim_chars(&str_chars(collapsed.as_str()));
    proof {
        lemma_spaced_free(lower@);
        lemma_drawn_free(spaced_s@, untagged@);
        lemma_drawn_free(untagged@, unbracketed@);
        lemma_collapse_free(unbracketed@);
        lemma_trim_free(collapsed@);
    }
    chars_to_string(&out)
}

/// `prefix` followed by `s` with its spaces turned into dots.
fn canonical(prefix: &str, s: &str) -> (r: String)
    ensures
        r@ == prefix@ + dotted(s@),
{
    let sp: Vec<char> = vec![' '];
    let dot: Vec<char> = vec!['.'];
    assert(sp@ =~= seq![' ']);
    assert(dot@ =~= seq!['.']);
    let d = replace_chars(&str_chars(s), &sp, &dot);
    let mut out = String::from_str(prefix);
    out.append(chars_to_string(&d).as_str());
    out
}

/// The series a title before an episode marker names, if any.
pub open spec fn series_from_title(raw: Seq<char>) -> Option<Seq<char>> {
    let cleaned = spec_clean_title(raw);
    if cleaned.len() == 0 || words(cleaned).len() < 1 {
        None
    } else {
        Some(cleaned)
    }
}

/// `m` is the match of kind `k` whose display name is `display`: its
/// canonical name is the kind's name, ':' and the display name with dots for
/// spaces.
pub open spec fn is_match_of(m: MatchResult, k: GroupKind, display: Seq<char>) -> bool {
    &&& m.kind == k
    &&& m.display_name@ == display
    &&& m.canonical_name@ == kind_name(k) + seq![':'] + dotted(display)
}

/// The match of kind `k` with display name `display`.
fn make_match(k: GroupKind, display: String) -> (r: MatchResult)
    ensures
        is_match_of(r, k, display@),
{
    proof {
        reveal_strlit("series:");
        reveal_strlit("movie:");
        reveal_strlit("collection:");
        reveal_strlit("series");
        reveal_strlit("movie");
        reveal_strlit("collection");
        assert("series:"@ =~= "series"@ + seq![':']);
        assert("movie:"@ =~= "movie"@ + seq![':']);
        assert("collection:"@ =~= "collection"@ + seq![':']);
    }
    let canonical_name = match k {
        GroupKind::Series => canonical("series:", display.as_str()),
        GroupKind::Movie => canonical("movie:", display.as_str()),
        GroupKind::Collection => canonical("collection:", display.as_str()),
    };
    MatchResult { kind: k, canonical_name, display_name: display }
}

/// The series match of a title before an episode marker; the text is the
/// regular expression's, see `detect_series`.
pub fn series_match(raw: &str) -> (r: Option<MatchResult>)
    ensures
        r matches Some(m) ==> plain_display(m.display_name@),
        match series_from_title(raw@) {
            None => r is None,
            Some(d) => r matches Some(m) && is_match_of(m, GroupKind::Series, d),
        },
{
    let cleaned = clean_title(raw);
    let cv = str_chars(cleaned.as_str());
    if cv.len() == 0 || words_of(&cv).len() < 1 {
        return None;
    }
    Some(make_match(GroupKind::Series, cleaned))
}

/// Detect if a filename represents a TV episode: the cleaned title before
/// an episode marker such as "S01E02" or "1x02".
pub fn detect_series(name: &str) -> (r: Option<MatchResult>)
    ensures
        r matches Some(m) ==> plain_display(m.display_name@),
        match before_episode_marker(name@) {
            None => r is None,
            Some(raw) => match series_from_title(raw) {
                None => r is None,
                Some(d) => r matches Some(m) && is_match_of(m, GroupKind::Series, d),
            },
        },
{
    match episode_title_prefix(name) {
        None => None,
        Some(raw) => series_match(raw.as_str()),
    }
}

/// The movie a normalized name (one that mentions a year) names, if any:
/// its cleaned title without years and edition markers.
pub open spec fn movie_from_base(base: Seq<char>) -> Option<Seq<char>> {
    let cleaned = spec_clean_title(base);
    let t = collapse_white(trim(without_edition_words(trim(without_years(cleaned)))));
    if cleaned.len() == 0 {
        None
    } else if t.len() == 0 || words(t).len() < 1 {
        None
    } else {
        Some(t)
    }
}

/// The movie match of a normalized name that mentions a year.
pub fn movie_match(base: &str) -> (r: Option<MatchResult>)
    ensures
        r matches Some(m) ==> plain_display(m.display_name@),
        match movie_from_base(base@) {
            None => r is None,
            Some(d) => r matches Some(m) && is_match_of(m, GroupKind::Movie, d),
        },
{
    let cleaned = clean_title(base);
    if cleaned.unicode_len() == 0 {
        return None;
    }
    let no_years = strip_years(cleaned.as_str());
    let t1 = chars_to_string(&trim_chars(&str_chars(no_years.as_str())));
    let no_editions = strip_edition_words(t1.as_str());
    let t2 = chars_to_string(&trim_chars(&str_chars(no_editions.as_str())));
    let title = collapse_spaces(t2.as_str());
    proof {
        lemma_drawn_free(cleaned@, no_years@);
        lemma_trim_free(no_years@);
        lemma_drawn_free(t1@, no_editions@);
        lemma_trim_free(no_editions@);
        lemma_collapse_free(t2@);
    }
    let tv = str_chars(title.as_str());
    if tv.len() == 0 || words_of(&tv).len() < 1 {
        return None;
    }
    Some(make_match(GroupKind::Movie, title))
}

/// Detect if a filename represents a movie: its normalized name mentions a
/// year from 1900 to 2099, and what is left of its title without years and
/// edition markers ("directors cut", "extended", ...) is not empty.
pub fn detect_movie(name: &str) -> (r: Option<MatchResult>)
    ensures
        r matches Some(m) ==> plain_display(m.display_name@),
        ({
            let base = spec_normalize_separators(name@);
            if !mentions_year(base) {
                r is None
            } else {
                match movie_from_base(base) {
                    None => r is None,
                    Some(d) => r matches Some(m) && is_match_of(m, GroupKind::Movie, d),
                }
            }
        }),
{
    let base = normalize_separators(name);
    if !has_year(base.as_str()) {
        return None;
    }
    movie_match(base.as_str())
}

/// The collection a name belongs to, if any: the first three words (or
/// two) of its cleaned, normalized name, when there are at least two words
/// and they take at least 3 bytes.
pub open spec fn collection_from(name: Seq<char>) -> Option<Seq<char>> {
    let ws = words(spec_clean_title(spec_normalize_separators(name)));
    let prefix = join(ws.take(if ws.len() < 3 { ws.len() as int } else { 3 }), seq![' ']);
    if ws.len() >= 2 && utf8_len(prefix) >= 3 {
        Some(prefix)
    } else {
        None
    }
}

/// Fallback: group by shared prefix of the first words.
pub fn detect_collection(name: &str) -> (r: Option<MatchResult>)
    ensures
        r matches Some(m) ==> split_on(m.display_name@, ' ').len() == 2 || split_on(
            m.display_name@,
            ' ',
        ).len() == 3,
        r matches Some(m) ==> plain_display(m.display_name@),
        match collection_from(name@) {
            None => r is None,
            Some(d) => r matches Some(m) && is_match_of(m, GroupKind::Collection, d),
        },
{
    let normalized = normalize_separators(name);
    let cleaned = clean_title(normalized.as_str());
    let ws = words_of(&str_chars(cleaned.as_str()));
    if ws.len() >= 2 {
        let n: usize = if ws.len() < 3 {
            ws.len()
        } else {
            3
        };
        let mut first: Vec<Vec<char>> = Vec::new();
        let mut i: usize = 0;
        while i < n
            invariant
                n <= ws.len(),
                i <= n,
                views(first@) == views(ws@).take(i as int),
            decreases n - i,
        {
            let w = ws[i].clone();
            assert(w@ == views(ws@)[i as int]);
            let ghost before = views(first@);
            first.push(w);
            assert(views(first@) =~= before.push(w@));
            i += 1;
            assert(views(first@) =~= views(ws@).take(i as int));
        }
        let sp: Vec<char> = vec![' '];
        assert(sp@ =~= seq![' ']);
        let prefix = join_chars(&first, &sp);
        proof {
            let cv = cleaned@;
            lemma_words_free(cv, 0, Seq::empty());
            let taken = views(ws@).take(n as int);
            assert forall|k: int| 0 <= k < taken.len() implies free_of_separators(
                #[trigger] taken[k],
            ) by {
                assert(taken[k] == words(cv)[k]);
            }
            lemma_join_free(taken);
            lemma_words_no_space(cv, 0, Seq::empty());
            assert forall|k: int, j: int| 0 <= k < taken.len() && 0 <= j < taken[k].len() implies taken[k][j]
                != ' ' by {
                assert(taken[k] == words(cv)[k]);
            }
            lemma_split_join(taken, ' ');
            if prefix@.len() == 0 {
                assert(prefix@ =~= Seq::<char>::empty());
                assert(utf8_len(prefix@) == 0);
            }
        }
        if utf8_byte_len(&prefix) >= 3 {
            return Some(make_match(GroupKind::Collection, chars_to_string(&prefix)));
        }
    }
    None
}

/// The group of a name: a series when it has an episode marker, otherwise a
/// movie when it mentions a year, otherwise a collection by its first words.
pub open spec fn spec_match_kind(name: Seq<char>) -> Option<(GroupKind, Seq<char>)> {
    let series = match before_episode_marker(name) {
        None => None,
        Some(raw) => series_from_title(raw),
    };
    let base = spec_normalize_separators(name);
    let movie = if mentions_year(base) {
        movie_from_base(base)
    } else {
        None
    };
    match series {
        Some(d) => Some((GroupKind::Series, d)),
        None => match movie {
            Some(d) => Some((GroupKind::Movie, d)),
            None => match collection_from(name) {
                Some(d) => Some((GroupKind::Collection, d)),
                None => None,
            },
        },
    }
}

/// Match a filename and return the best group classification: series
/// first, then movie, then collection. The canonical name of a match is
/// always its kind's name, ':' and its display name with dots for spaces.
pub fn match_name(name: &str) -> (r: Option<MatchResult>)
    ensures
        r matches Some(m) ==> (m.kind == GroupKind::Collection ==> (split_on(m.display_name@, ' ').len()
            == 2 || split_on(m.display_name@, ' ').len() == 3)),
        r matches Some(m) ==> plain_display(m.display_name@),
        match spec_match_kind(name@) {
            None => r is None,
            Some(kd) => r matches Some(m) && is_match_of(m, kd.0, kd.1),
        },
{
    match detect_series(name) {
        Some(m) => Some(m),
        None => match detect_movie(name) {
            Some(m) => Some(m),
            None => detect_collection(name),
        },
    }
}


/// Trimming the start leaves no white space in front.
proof fn lemma_trim_start_first(s: Seq<char>)
    ensures
        trim_start(s).len() > 0 ==> !is_white_space(trim_start(s)[0]),
    decreases s.len(),
{
    if s.len() > 0 && is_white_space(s[0]) {
        lemma_trim_start_first(s.drop_first());
    }
}

/// Trimming the end keeps a prefix.
proof fn lemma_trim_end_prefix(s: Seq<char>)
    ensures
        trim_end(s).len() <= s.len(),
        trim_end(s) == s.take(trim_end(s).len() as int),
    decreases s.len(),
{
    if s.len() > 0 && is_white_space(s.last()) {
        lemma_trim_end_prefix(s.drop_last());
        let t = trim_end(s.drop_last());
        assert(s.drop_last().take(t.len() as int) =~= s.take(t.len() as int));
    } else {
        assert(s.take(s.len() as int) =~= s);
    }
}

/// A trimmed text that is not empty starts with a character that is not
/// white space.
proof fn lemma_trim_first(s: Seq<char>)
    ensures
        trim(s).len() > 0 ==> !is_white_space(trim(s)[0]),
{
    lemma_trim_start_first(s);
    lemma_trim_end_prefix(trim_start(s));
}

/// Reading from a character that is not white space, or with a word begun,
/// gives at least one word.
proof fn lemma_some_word(s: Seq<char>, i: int, cur: Seq<char>)
    requires
        0 <= i <= s.len(),
        cur.len() > 0 || (i < s.len() && !is_white_space(s[i])),
    ensures
        words_from(s, i, cur).len() >= 1,
    decreases s.len() - i,
{
    if i < s.len() {
        if is_white_space(s[i]) {
            assert(words_from(s, i, cur) == seq![cur] + words_from(s, i + 1, Seq::empty()));
        } else {
            lemma_some_word(s, i + 1, cur.push(s[i]));
        }
    }
}

/// Series come first: a name with an episode marker whose cleaned title
/// before the marker is not empty is a series with that title as display
/// name, whether or not the name also mentions a year or shares first words
/// with others.
pub proof fn lemma_series_first(name: Seq<char>, raw: Seq<char>)
    requires
        before_episode_marker(name) == Some(raw),
        spec_clean_title(raw).len() > 0,
    ensures
        spec_match_kind(name) == Some((GroupKind::Series, spec_clean_title(raw))),
{
    let c = spec_clean_title(raw);
    lemma_trim_first(
        collapse_white(
            without_brackets(
                without_release_tags(map_chars_in(unicode_lowercase(raw), separator_chars(), ' ')),
            ),
        ),
    );
    lemma_some_word(c, 0, Seq::empty());
    assert(series_from_title(raw) == Some(c));
}

} // verus!
