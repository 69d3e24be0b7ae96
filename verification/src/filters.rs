//! filters
//!
//! Include and exclude rules based on regular expressions.
use crate::text::{push_char, push_str};
use regex::RegexSet;
use vstd::prelude::*;

verus! {

#[verifier::external_type_specification]
#[verifier::external_body]
pub struct ExRegexSet(RegexSet);

/// The patterns that a `RegexSet` was built from, in the order given.
pub uninterp spec fn regex_set_patterns(set: RegexSet) -> Seq<Seq<char>>;

/// Whether the regular expression `pattern` matches somewhere in `text`
/// (unanchored, as the `regex` crate searches).
pub uninterp spec fn regex_matches(pattern: Seq<char>, text: Seq<char>) -> bool;

/// Whether `regex::Regex::new` accepts `pattern`.
pub uninterp spec fn regex_compiles(pattern: Seq<char>) -> bool;

/// Whether `regex::RegexSet::new` accepts the list `patterns`.
pub uninterp spec fn regex_set_compiles(patterns: Seq<Seq<char>>) -> bool;

/// The characters of each string, in order.
pub open spec fn views(strings: Seq<String>) -> Seq<Seq<char>> {
    strings.map_values(|s: String| s@)
}

/// Compiles `pattern` with `regex::Regex::new`, keeping only whether it
/// succeeded and, if not, the text of the error. Nothing is stated of that
/// text.
#[verifier::external_body]
fn check_pattern(pattern: &str) -> (r: Result<(), String>)
    ensures
        r is Ok <==> regex_compiles(pattern@),
{
    match regex::Regex::new(pattern) {
        Ok(_) => Ok(()),
        Err(e) => Err(e.to_string()),
    }
}

/// Builds a set with `regex::RegexSet::new`. The set keeps the patterns in
/// order (`RegexSet::patterns` gives them back); an empty list always
/// builds (`RegexSet::empty` is that call, unwrapped). Nothing is stated of
/// the text of an error.
#[verifier::external_body]
fn build_regex_set(patterns: &[String]) -> (r: Result<RegexSet, String>)
    ensures
        r is Ok <==> regex_set_compiles(views(patterns@)),
        patterns@.len() == 0 ==> r is Ok,
        r matches Ok(set) ==> regex_set_patterns(set) == views(patterns@),
{
    match RegexSet::new(patterns) {
        Ok(set) => Ok(set),
        Err(e) => Err(e.to_string()),
    }
}

/// `Clone` of `regex::RegexSet` (derived there): the copy holds the same
/// patterns.
pub assume_specification[ <RegexSet as Clone>::clone ](set: &RegexSet) -> (r: RegexSet)
    ensures
        regex_set_patterns(r) == regex_set_patterns(*set),
;

/// `regex::RegexSet::empty`: a set of no patterns.
#[verifier::external_body]
fn empty_regex_set() -> (r: RegexSet)
    ensures
        regex_set_patterns(r) == Seq::<Seq<char>>::empty(),
{
    RegexSet::empty()
}

/// `regex::RegexSet::is_match`: true if and only if one of the patterns of
/// the set matches the text, as the crate documents.
#[verifier::external_body]
fn regex_set_is_match(set: &RegexSet, text: &str) -> (r: bool)
    ensures
        r == (exists|i: int| 0 <= i < regex_set_patterns(*set).len() && regex_matches(#[trigger] regex_set_patterns(*set)[i], text@)),
{
    set.is_match(text)
}

/// Whether one of `patterns` matches `text`.
pub open spec fn any_matches(patterns: Seq<Seq<char>>, text: Seq<char>) -> bool {
    exists|i: int| 0 <= i < patterns.len() && regex_matches(#[trigger] patterns[i], text)
}

/// The rules of a `Filters`: the include patterns (none when the list was
/// empty) and the exclude patterns.
pub struct FiltersView {
    pub includes: Option<Seq<Seq<char>>>,
    pub excludes: Seq<Seq<char>>,
}

/// The rules that let everything through.
pub open spec fn no_filters() -> FiltersView {
    FiltersView { includes: None, excludes: Seq::empty() }
}

/// Whether a file or symlink whose match string is `path` is synchronized:
/// it must match an include pattern, if there are any, and no exclude pattern.
pub open spec fn spec_passes(f: FiltersView, path: Seq<char>) -> bool {
    let included = match f.includes {
        Some(p) => any_matches(p, path),
        None => true,
    };
    included && !any_matches(f.excludes, path)
}

/// Whether a directory whose match string is `path` is pruned: it matches an
/// exclude pattern.
pub open spec fn spec_dir_pruned(f: FiltersView, path: Seq<char>) -> bool {
    any_matches(f.excludes, path)
}

/// `--exclude` takes precedence over `--include`: a path that matches an
/// exclude pattern never passes, whatever the include patterns, and a
/// directory that matches one is pruned.
pub proof fn lemma_exclude_wins(f: FiltersView, path: Seq<char>)
    requires
        any_matches(f.excludes, path),
    ensures
        !spec_passes(f, path),
        spec_dir_pruned(f, path),
{
}

/// A directory is pruned exactly when one exclude pattern matches its whole
/// match string (the components joined by `/`, searched unanchored by the
/// regex engine); a file passes exactly when no exclude pattern matches it
/// and, if there are include patterns, one of them does.
pub proof fn lemma_rules_in_terms_of_patterns(f: FiltersView, path: Seq<char>)
    ensures
        spec_dir_pruned(f, path) <==> exists|i: int|
            0 <= i < f.excludes.len() && regex_matches(#[trigger] f.excludes[i], path),
        spec_passes(f, path) <==> (forall|i: int|
            0 <= i < f.excludes.len() ==> !regex_matches(#[trigger] f.excludes[i], path)) && (
        f.includes matches Some(p) ==> exists|j: int|
            0 <= j < p.len() && regex_matches(#[trigger] p[j], path)),
        f.excludes.len() == 0 ==> !spec_dir_pruned(f, path),
{
}

/// Include patterns never prevent descent: whether a directory is pruned
/// depends on the exclude patterns alone.
pub proof fn lemma_includes_never_prune(f: FiltersView, g: FiltersView, path: Seq<char>)
    requires
        f.excludes == g.excludes,
    ensures
        spec_dir_pruned(f, path) == spec_dir_pruned(g, path),
{
}

/// If any include pattern is given, only paths matching at least one of
/// them pass; without include patterns, every path that no exclude pattern
/// matches passes.
pub proof fn lemma_include_list_whitelists(f: FiltersView, path: Seq<char>)
    ensures
        f.includes matches Some(p) ==> (spec_passes(f, path) ==> any_matches(p, path)),
        f.includes is None ==> (spec_passes(f, path) == !any_matches(f.excludes, path)),
{
}

/// Without any pattern, everything passes and nothing is pruned.
pub proof fn lemma_no_filters_pass_everything(path: Seq<char>)
    ensures
        spec_passes(no_filters(), path),
        !spec_dir_pruned(no_filters(), path),
{
}

/// Two lists with the same patterns match the same texts.
proof fn lemma_same_patterns_match_alike(p: Seq<Seq<char>>, q: Seq<Seq<char>>, text: Seq<char>)
    requires
        p.to_set() == q.to_set(),
    ensures
        any_matches(p, text) == any_matches(q, text),
{
    if any_matches(p, text) {
        let i = choose|i: int| 0 <= i < p.len() && regex_matches(#[trigger] p[i], text);
        assert(p.to_set().contains(p[i]));
        assert(q.to_set().contains(p[i]));
        let j = choose|j: int| 0 <= j < q.len() && q[j] == p[i];
        assert(regex_matches(q[j], text));
    }
    if any_matches(q, text) {
        let i = choose|i: int| 0 <= i < q.len() && regex_matches(#[trigger] q[i], text);
        assert(q.to_set().contains(q[i]));
        assert(p.to_set().contains(q[i]));
        let j = choose|j: int| 0 <= j < p.len() && p[j] == q[i];
        assert(regex_matches(p[j], text));
    }
}

/// The order of the patterns within a list does not matter: filters with
/// the same include patterns and the same exclude patterns, in any order,
/// decide alike.
pub proof fn lemma_pattern_order_irrelevant(f: FiltersView, g: FiltersView, path: Seq<char>)
    requires
        f.includes is None <==> g.includes is None,
        f.includes matches Some(p) ==> g.includes matches Some(q) && p.to_set() == q.to_set(),
        f.excludes.to_set() == g.excludes.to_set(),
    ensures
        spec_passes(f, path) == spec_passes(g, path),
        spec_dir_pruned(f, path) == spec_dir_pruned(g, path),
{
    lemma_same_patterns_match_alike(f.excludes, g.excludes, path);
    if let Some(p) = f.includes {
        lemma_same_patterns_match_alike(p, g.includes->0, path);
    }
}

/// The string a pattern is matched against: the components joined by `/`.
pub open spec fn join_path(components: Seq<Seq<char>>) -> Seq<char>
    decreases components.len(),
{
    if components.len() == 0 {
        Seq::empty()
    } else if components.len() == 1 {
        components[0]
    } else {
        join_path(components.drop_last()) + seq!['/'] + components.last()
    }
}

/// Joining the components of two non-empty paths one after the other is
/// joining each, with `/` between them.
pub proof fn lemma_join_path_concat(a: Seq<Seq<char>>, b: Seq<Seq<char>>)
    requires
        a.len() > 0,
        b.len() > 0,
    ensures
        join_path(a + b) == join_path(a) + seq!['/'] + join_path(b),
    decreases b.len(),
{
    if b.len() == 1 {
        assert((a + b).drop_last() =~= a);
        assert((a + b).last() == b[0]);
    } else {
        let b0 = b.drop_last();
        lemma_join_path_concat(a, b0);
        assert((a + b).drop_last() =~= a + b0);
        assert((a + b).last() == b.last());
        assert(join_path(a) + seq!['/'] + join_path(b0) + seq!['/'] + b.last() =~= join_path(a)
            + seq!['/'] + (join_path(b0) + seq!['/'] + b.last()));
    }
}

/// Reordering the patterns of each list changes nothing for filters that
/// build: when `Filters::new` accepts both the lists and their reorderings,
/// the two filters let the same paths through and prune the same
/// directories. (Whether `regex::RegexSet::new` accepts a reordered list is
/// not stated of the crate.)
pub proof fn lemma_reordered_lists_filter_alike(
    inc: Seq<Seq<char>>,
    exc: Seq<Seq<char>>,
    inc2: Seq<Seq<char>>,
    exc2: Seq<Seq<char>>,
    path: Seq<char>,
)
    requires
        inc.to_multiset() == inc2.to_multiset(),
        exc.to_multiset() == exc2.to_multiset(),
        spec_new_filters(inc, exc) is Ok,
        spec_new_filters(inc2, exc2) is Ok,
    ensures
        spec_passes(spec_new_filters(inc, exc)->Ok_0, path) == spec_passes(
            spec_new_filters(inc2, exc2)->Ok_0,
            path,
        ),
        spec_dir_pruned(spec_new_filters(inc, exc)->Ok_0, path) == spec_dir_pruned(
            spec_new_filters(inc2, exc2)->Ok_0,
            path,
        ),
{
    lemma_multiset_same_set(inc, inc2);
    lemma_multiset_same_set(exc, exc2);
    inc.to_multiset_ensures();
    inc2.to_multiset_ensures();
    assert(inc.len() == inc2.len());
    lemma_pattern_order_irrelevant(
        spec_new_filters(inc, exc)->Ok_0,
        spec_new_filters(inc2, exc2)->Ok_0,
        path,
    );
}

/// Two lists with the same patterns, counted with multiplicity, have the same
/// set of patterns.
proof fn lemma_multiset_same_set(p: Seq<Seq<char>>, q: Seq<Seq<char>>)
    requires
        p.to_multiset() == q.to_multiset(),
    ensures
        p.to_set() == q.to_set(),
{
    assert forall|x: Seq<char>| p.to_set().contains(x) == q.to_set().contains(x) by {
        p.to_multiset_ensures();
        q.to_multiset_ensures();
        assert(p.to_multiset().count(x) == q.to_multiset().count(x));
        assert(p.contains(x) == (p.to_multiset().count(x) > 0));
        assert(q.contains(x) == (q.to_multiset().count(x) > 0));
        assert(p.to_set().contains(x) == p.contains(x));
        assert(q.to_set().contains(x) == q.contains(x));
    }
    assert(p.to_set() =~= q.to_set());
}

/// Which list of patterns.
#[derive(Debug, Clone, Copy, PartialEq, Eq, Structural)]
pub enum PatternKind {
    Include,
    Exclude,
}

/// The name of the command line option of a list of patterns.
pub open spec fn kind_name(kind: PatternKind) -> Seq<char> {
    match kind {
        PatternKind::Include => "include"@,
        PatternKind::Exclude => "exclude"@,
    }
}

/// Why filters could not be built, in terms of the patterns.
pub enum FilterErrorView {
    /// The first pattern of the list that does not compile.
    InvalidPattern { kind: PatternKind, pattern: Seq<char> },
    /// Each pattern compiles, but the set of them was refused.
    SetRejected { kind: PatternKind },
}

/// Why filters could not be built.
#[derive(Debug, Clone)]
pub enum FilterError {
    /// The first pattern of the list that does not compile, and the reason
    /// the regex engine gave.
    InvalidPattern { kind: PatternKind, pattern: String, details: String },
    /// Each pattern compiles, but the set of them was refused.
    SetRejected { kind: PatternKind, details: String },
}

impl View for FilterError {
    type V = FilterErrorView;

    open spec fn view(&self) -> FilterErrorView {
        match self {
            FilterError::InvalidPattern { kind, pattern, .. } => FilterErrorView::InvalidPattern {
                kind: *kind,
                pattern: pattern@,
            },
            FilterError::SetRejected { kind, .. } => FilterErrorView::SetRejected { kind: *kind },
        }
    }
}

impl FilterError {
    /// The message that describes this error: it names the option and, for
    /// an invalid pattern, the pattern, then gives the engine's reason.
    pub fn message(&self) -> (r: String)
        ensures
            self matches FilterError::InvalidPattern { kind, pattern, details } ==> r@
                == "invalid --"@ + kind_name(*kind) + " pattern: '"@ + pattern@ + "': "@
                + details@,
            self matches FilterError::SetRejected { kind, details } ==> r@
                == "could not compile the --"@ + kind_name(*kind) + " patterns: "@ + details@,
    {
        let mut r = String::new();
        match self {
            FilterError::InvalidPattern { kind, pattern, details } => {
                push_str(&mut r, "invalid --");
                push_kind(&mut r, *kind);
                push_str(&mut r, " pattern: '");
                push_str(&mut r, pattern.as_str());
                push_str(&mut r, "': ");
                push_str(&mut r, details.as_str());
            },
            FilterError::SetRejected { kind, details } => {
                push_str(&mut r, "could not compile the --");
                push_kind(&mut r, *kind);
                push_str(&mut r, " patterns: ");
                push_str(&mut r, details.as_str());
            },
        }
        r
    }
}

fn push_kind(s: &mut String, kind: PatternKind)
    ensures
        final(s)@ == old(s)@ + kind_name(kind),
{
    match kind {
        PatternKind::Include => push_str(s, "include"),
        PatternKind::Exclude => push_str(s, "exclude"),
    }
}

/// The index of the first pattern that does not compile, or -1.
pub open spec fn first_invalid(patterns: Seq<Seq<char>>) -> int
    decreases patterns.len(),
{
    if patterns.len() == 0 {
        -1
    } else if !regex_compiles(patterns[0]) {
        0
    } else {
        let r = first_invalid(patterns.drop_first());
        if r < 0 {
            -1
        } else {
            r + 1
        }
    }
}

/// The outcome of compiling one list of patterns.
pub open spec fn spec_build_set(kind: PatternKind, patterns: Seq<Seq<char>>) -> Result<
    Seq<Seq<char>>,
    FilterErrorView,
> {
    let i = first_invalid(patterns);
    if i >= 0 {
        Err(FilterErrorView::InvalidPattern { kind, pattern: patterns[i] })
    } else if !regex_set_compiles(patterns) {
        Err(FilterErrorView::SetRejected { kind })
    } else {
        Ok(patterns)
    }
}

/// The outcome of `Filters::new`: the include list is compiled first (when
/// it is not empty), then the exclude list.
pub open spec fn spec_new_filters(include_list: Seq<Seq<char>>, exclude_list: Seq<Seq<char>>) -> Result<
    FiltersView,
    FilterErrorView,
> {
    if include_list.len() > 0 && spec_build_set(PatternKind::Include, include_list) is Err {
        Err(spec_build_set(PatternKind::Include, include_list)->Err_0)
    } else {
        match spec_build_set(PatternKind::Exclude, exclude_list) {
            Err(e) => Err(e),
            Ok(ex) => Ok(
                FiltersView {
                    includes: if include_list.len() > 0 {
                        Some(include_list)
                    } else {
                        None
                    },
                    excludes: ex,
                },
            ),
        }
    }
}

/// The characterization of `first_invalid`: every earlier pattern compiles.
proof fn lemma_first_invalid(patterns: Seq<Seq<char>>)
    ensures
        -1 <= first_invalid(patterns) < patterns.len(),
        first_invalid(patterns) >= 0 ==> !regex_compiles(patterns[first_invalid(patterns)]),
        forall|j: int|
            0 <= j < patterns.len() && (first_invalid(patterns) < 0 || j < first_invalid(
                patterns,
            )) ==> regex_compiles(#[trigger] patterns[j]),
    decreases patterns.len(),
{
    if patterns.len() > 0 && regex_compiles(patterns[0]) {
        let rest = patterns.drop_first();
        lemma_first_invalid(rest);
        assert forall|j: int|
            0 <= j < patterns.len() && (first_invalid(patterns) < 0 || j < first_invalid(
                patterns,
            )) implies regex_compiles(#[trigger] patterns[j]) by {
            if j > 0 {
                assert(patterns[j] == rest[j - 1]);
            }
        }
    }
}

/// Compiles one list of patterns, each on its own first so that an error can
/// name the first invalid one.
fn build_set(kind: PatternKind, patterns: &[String]) -> (r: Result<RegexSet, FilterError>)
    ensures
        r matches Ok(set) ==> spec_build_set(kind, views(patterns@)) == Ok::<
            Seq<Seq<char>>,
            FilterErrorView,
        >(regex_set_patterns(set)),
        r matches Err(e) ==> spec_build_set(kind, views(patterns@)) == Err::<
            Seq<Seq<char>>,
            FilterErrorView,
        >(e@),
        patterns@.len() == 0 ==> r is Ok,
{
    let ghost p = views(patterns@);
    proof {
        lemma_first_invalid(p);
    }
    let mut i: usize = 0;
    while i < patterns.len()
        invariant
            i <= patterns.len(),
            p == views(patterns@),
            forall|j: int| 0 <= j < i ==> regex_compiles(#[trigger] p[j]),
            -1 <= first_invalid(p) < p.len(),
            first_invalid(p) >= 0 ==> !regex_compiles(p[first_invalid(p)]),
            forall|j: int|
                0 <= j < p.len() && (first_invalid(p) < 0 || j < first_invalid(p)) ==> regex_compiles(
                    #[trigger] p[j],
                ),
        decreases patterns.len() - i,
    {
        match check_pattern(patterns[i].as_str()) {
            Ok(()) => {},
            Err(details) => {
                proof {
                    assert(p[i as int] == patterns@[i as int]@);
                    assert(first_invalid(p) == i);
                }
                return Err(
                    FilterError::InvalidPattern {
                        kind,
                        pattern: patterns[i].clone(),
                        details,
                    },
                );
            },
        }
        proof {
            assert(p[i as int] == patterns@[i as int]@);
        }
        i = i + 1;
    }
    proof {
        assert(first_invalid(p) < 0);
    }
    match build_regex_set(patterns) {
        Ok(set) => Ok(set),
        Err(details) => Err(FilterError::SetRejected { kind, details }),
    }
}

/// Include and exclude rules for a sync.
///
/// Patterns are regular expressions, matched against the path relative to
/// the source directory, with path components joined by `/` on every
/// platform.
///
/// Evaluation rules:
///
/// * If the include list is not empty, a path must match at least one
///   include pattern to be a candidate.
/// * A candidate matching any exclude pattern is excluded.
/// * `--exclude` takes precedence over `--include`.
/// * A directory matching any exclude pattern is pruned: `rusync` does not
///   descend into it. Include patterns never prevent descent, because
///   files below a directory may still match them.
#[derive(Debug, Clone)]
pub struct Filters {
    includes: Option<RegexSet>,
    excludes: RegexSet,
}

impl View for Filters {
    type V = FiltersView;

    closed spec fn view(&self) -> FiltersView {
        FiltersView {
            includes: match self.includes {
                Some(set) => Some(regex_set_patterns(set)),
                None => None,
            },
            excludes: regex_set_patterns(self.excludes),
        }
    }
}

impl Filters {
    /// Build filters from the `--include` and `--exclude` command line
    /// arguments. Returns an error naming the first invalid pattern.
    pub fn new(include_list: &[String], exclude_list: &[String]) -> (r: Result<Filters, FilterError>)
        ensures
            r matches Ok(f) ==> spec_new_filters(views(include_list@), views(exclude_list@)) == Ok::<
                FiltersView,
                FilterErrorView,
            >(f@),
            r matches Err(e) ==> spec_new_filters(views(include_list@), views(exclude_list@)) == Err::<
                FiltersView,
                FilterErrorView,
            >(e@),
            include_list@.len() == 0 && exclude_list@.len() == 0 ==> (r matches Ok(f) && f@
                == no_filters()),
    {
        let includes = if include_list.len() == 0 {
            None
        } else {
            match build_set(PatternKind::Include, include_list) {
                Ok(set) => Some(set),
                Err(e) => {
                    return Err(e);
                },
            }
        };
        let excludes = match build_set(PatternKind::Exclude, exclude_list) {
            Ok(set) => set,
            Err(e) => {
                return Err(e);
            },
        };
        let f = Filters { includes, excludes };
        proof {
            if include_list@.len() > 0 {
                assert(views(include_list@).len() > 0);
            }
            if exclude_list@.len() == 0 {
                assert(views(exclude_list@) =~= Seq::<Seq<char>>::empty());
            }
            assert(f@ == spec_new_filters(views(include_list@), views(exclude_list@))->Ok_0);
        }
        Ok(f)
    }

    /// Whether a file or symlink entry should be synchronized. The relative
    /// path is given by its components.
    pub fn passes(&self, rel_path: &[String]) -> (r: bool)
        ensures
            r == spec_passes(self@, join_path(views(rel_path@))),
    {
        let path = match_string(rel_path);
        let included = match &self.includes {
            Some(set) => regex_set_is_match(set, path.as_str()),
            None => true,
        };
        included && !regex_set_is_match(&self.excludes, path.as_str())
    }

    /// Whether a directory should be pruned (not descended into).
    ///
    /// Only exclude patterns apply here; include patterns never prevent
    /// descent, because files below the directory may still match them.
    pub fn dir_pruned(&self, rel_path: &[String]) -> (r: bool)
        ensures
            r == spec_dir_pruned(self@, join_path(views(rel_path@))),
    {
        regex_set_is_match(&self.excludes, match_string(rel_path).as_str())
    }
}

impl Default for Filters {
    fn default() -> (r: Filters)
        ensures
            r@ == no_filters(),
    {
        Filters { includes: None, excludes: empty_regex_set() }
    }
}

/// The string a pattern is matched against: the relative path, with all
/// components joined by `/`, so that patterns behave the same on every
/// platform.
pub fn match_string(rel_path: &[String]) -> (r: String)
    ensures
        r@ == join_path(views(rel_path@)),
{
    let mut r = String::new();
    let mut i: usize = 0;
    while i < rel_path.len()
        invariant
            i <= rel_path.len(),
            r@ == join_path(views(rel_path@.take(i as int))),
        decreases rel_path.len() - i,
    {
        let ghost before = views(rel_path@.take(i as int));
        let ghost after = views(rel_path@.take(i + 1));
        proof {
            assert(after.drop_last() =~= before);
            assert(after.last() == rel_path@[i as int]@);
        }
        if i > 0 {
            push_char(&mut r, '/');
        } else {
            proof {
                assert(before.len() == 0);
            }
        }
        push_str(&mut r, rel_path[i].as_str());
        proof {
            assert(r@ =~= join_path(after));
        }
        i = i + 1;
    }
    proof {
        assert(rel_path@.take(rel_path.len() as int) =~= rel_path@);
    }
    r
}

} // verus!
