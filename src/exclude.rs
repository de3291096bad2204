//! Exclusion rules: which paths, relative to the scan root, are skipped.
//!
//! A relative path is given as its components. A rule is a shell-style glob;
//! it excludes a path when it matches the whole path text (components joined
//! by '/'), or the final component alone, or when it has the shape
//! `<name>/**` with no '/' in `<name>` and some component equals `<name>`.
use vstd::prelude::*;
use crate::text::{ends_with, has_char, spec_ends_with, str_eq};

verus! {

/// Whether `glob::Pattern::new` accepts this pattern text.
pub uninterp spec fn glob_valid(p: Seq<char>) -> bool;

/// Whether the pattern compiled from `p` matches `s` under glob's default
/// match options.
pub uninterp spec fn glob_match(p: Seq<char>, s: Seq<char>) -> bool;

/// Relies on `glob::Pattern::new`: whether it returns `Ok` depends on the
/// pattern text alone.
#[verifier::external_body]
fn glob_compiles(p: &str) -> (r: bool)
    ensures
        r == glob_valid(p@),
{
    glob::Pattern::new(p).is_ok()
}

/// Relies on `glob::Pattern::matches` (default options) for the pattern that
/// `glob::Pattern::new` compiles from `p`.
#[verifier::external_body]
fn glob_matches(p: &str, s: &str) -> (r: bool)
    requires
        glob_valid(p@),
    ensures
        r == glob_match(p@, s@),
{
    match glob::Pattern::new(p) {
        Ok(compiled) => compiled.matches(s),
        Err(_) => false,
    }
}

/// The views of a list of strings.
pub open spec fn views(v: Seq<String>) -> Seq<Seq<char>> {
    v.map_values(|s: String| s@)
}

/// The text of a relative path: its components joined by '/'.
pub open spec fn path_text(c: Seq<Seq<char>>) -> Seq<char>
    decreases c.len(),
{
    if c.len() == 0 {
        seq![]
    } else if c.len() == 1 {
        c[0]
    } else {
        path_text(c.drop_last()) + seq!['/'] + c.last()
    }
}

/// The final component of a relative path; empty for the empty path.
pub open spec fn file_name_of(c: Seq<Seq<char>>) -> Seq<char> {
    if c.len() == 0 {
        seq![]
    } else {
        c.last()
    }
}

/// For a rule of the shape `<name>/**` with no '/' in `<name>`, that name.
pub open spec fn dir_rule_name(p: Seq<char>) -> Option<Seq<char>> {
    if spec_ends_with(p, "/**"@) && !p.subrange(0, p.len() - 3).contains('/') {
        Some(p.subrange(0, p.len() - 3))
    } else {
        None
    }
}

/// Whether one rule excludes the path with components `c`.
pub open spec fn rule_excludes(p: Seq<char>, c: Seq<Seq<char>>) -> bool {
    ||| glob_match(p, path_text(c))
    ||| glob_match(p, file_name_of(c))
    ||| match dir_rule_name(p) {
        Some(d) => c.contains(d),
        None => false,
    }
}

/// Whether some rule of `ps` excludes the path with components `c`.
pub open spec fn spec_excluded(ps: Seq<Seq<char>>, c: Seq<Seq<char>>) -> bool {
    exists|i: int| 0 <= i < ps.len() && rule_excludes(#[trigger] ps[i], c)
}

/// The rules of `s` that compile, in their order.
pub open spec fn valid_patterns(s: Seq<Seq<char>>) -> Seq<Seq<char>>
    decreases s.len(),
{
    if s.len() == 0 {
        seq![]
    } else if glob_valid(s.last()) {
        valid_patterns(s.drop_last()).push(s.last())
    } else {
        valid_patterns(s.drop_last())
    }
}

/// A rule is kept exactly when it was supplied and compiles.
pub proof fn lemma_valid_patterns_contains(s: Seq<Seq<char>>, p: Seq<char>)
    ensures
        valid_patterns(s).contains(p) <==> (s.contains(p) && glob_valid(p)),
    decreases s.len(),
{
    if s.len() > 0 {
        lemma_valid_patterns_contains(s.drop_last(), p);
        let prev = valid_patterns(s.drop_last());
        if s.contains(p) && glob_valid(p) {
            let k = choose|k: int| 0 <= k < s.len() && s[k] == p;
            if k < s.len() - 1 {
                assert(s.drop_last()[k] == p);
            }
        }
        if glob_valid(s.last()) {
            assert(prev.push(s.last()).last() == s.last());
            if prev.push(s.last()).contains(p) {
                let k = choose|k: int| 0 <= k < prev.push(s.last()).len() && prev.push(s.last())[k] == p;
                if k < prev.len() {
                    assert(prev[k] == p);
                }
            }
        }
        if s.drop_last().contains(p) {
            let k = choose|k: int| 0 <= k < s.drop_last().len() && s.drop_last()[k] == p;
            assert(s[k] == p);
        }
        if prev.contains(p) && glob_valid(s.last()) {
            let k = choose|k: int| 0 <= k < prev.len() && prev[k] == p;
            assert(prev.push(s.last())[k] == p);
        }
    }
}

/// The text of a relative path given by its components.
pub fn join_path(c: &Vec<String>) -> (r: String)
    ensures
        r@ == path_text(views(c@)),
{
    let mut r = String::new();
    let mut i: usize = 0;
    while i < c.len()
        invariant
            i <= c@.len(),
            r@ == path_text(views(c@).subrange(0, i as int)),
        decreases c@.len() - i,
    {
        let ghost before = views(c@).subrange(0, i as int);
        let ghost after = views(c@).subrange(0, i as int + 1);
        assert(after.drop_last() =~= before);
        if i > 0 {
            r.append("/");
            proof {
                reveal_strlit("/");
            }
        }
        r.append(c[i].as_str());
        assert(r@ =~= path_text(after));
        i = i + 1;
    }
    assert(views(c@).subrange(0, c@.len() as int) =~= views(c@));
    r
}

/// A set of exclusion rules, fixed when it is made.
pub struct ExclusionMatcher {
    patterns: Vec<String>,
}

impl ExclusionMatcher {
    /// Every rule held compiles.
    #[verifier::type_invariant]
    spec fn all_compile(&self) -> bool {
        forall|k: int| 0 <= k < self.patterns@.len() ==> glob_valid(#[trigger] self.patterns@[k]@)
    }

    /// The rules in force.
    pub closed spec fn rules(&self) -> Seq<Seq<char>> {
        views(self.patterns@)
    }

    /// Keeps the supplied rules that compile, in their order; a malformed
    /// rule is dropped without error.
    pub fn new(patterns: &[String]) -> (r: ExclusionMatcher)
        ensures
            r.rules() == valid_patterns(views(patterns@)),
    {
        let mut kept: Vec<String> = Vec::new();
        let mut i: usize = 0;
        while i < patterns.len()
            invariant
                i <= patterns@.len(),
                views(kept@) == valid_patterns(views(patterns@).subrange(0, i as int)),
                forall|k: int| 0 <= k < kept@.len() ==> glob_valid(#[trigger] kept@[k]@),
            decreases patterns@.len() - i,
        {
            let ghost before = views(patterns@).subrange(0, i as int);
            let ghost after = views(patterns@).subrange(0, i as int + 1);
            assert(after.drop_last() =~= before);
            assert(after.last() == patterns@[i as int]@);
            let p = &patterns[i];
            if glob_compiles(p.as_str()) {
                kept.push(p.clone());
                assert(views(kept@) =~= views(kept@).drop_last().push(p@));
            }
            assert(views(kept@) =~= valid_patterns(after));
            i = i + 1;
        }
        assert(views(patterns@).subrange(0, patterns@.len() as int) =~= views(patterns@));
        ExclusionMatcher { patterns: kept }
    }

    /// Whether the rules exclude the relative path with these components.
    pub fn is_excluded(&self, components: &Vec<String>) -> (r: bool)
        ensures
            r == spec_excluded(self.rules(), views(components@)),
    {
        proof {
            use_type_invariant(self);
        }
        let ghost c = views(components@);
        let text = join_path(components);
        let empty = String::new();
        let name: &String = if components.len() == 0 {
            &empty
        } else {
            &components[components.len() - 1]
        };
        assert(name@ == file_name_of(c));
        let mut i: usize = 0;
        while i < self.patterns.len()
            invariant
                i <= self.patterns@.len(),
                text@ == path_text(c),
                name@ == file_name_of(c),
                c == views(components@),
                forall|k: int| 0 <= k < self.patterns@.len() ==> glob_valid(#[trigger] self.patterns@[k]@),
                forall|k: int| 0 <= k < i ==> !rule_excludes(#[trigger] self.rules()[k], c),
            decreases self.patterns@.len() - i,
        {
            let p = self.patterns[i].as_str();
            assert(self.rules()[i as int] == p@);
            if rule_applies(p, &text, name, components) {
                return true;
            }
            i = i + 1;
        }
        false
    }
}

/// Whether the rule `p` excludes the path with components `c`, whose text
/// and final component are given.
fn rule_applies(p: &str, text: &String, name: &String, c: &Vec<String>) -> (r: bool)
    requires
        glob_valid(p@),
        text@ == path_text(views(c@)),
        name@ == file_name_of(views(c@)),
    ensures
        r == rule_excludes(p@, views(c@)),
{
    if glob_matches(p, text.as_str()) || glob_matches(p, name.as_str()) {
        return true;
    }
    if !ends_with(p, "/**") {
        return false;
    }
    proof {
        reveal_strlit("/**");
    }
    let n = p.unicode_len();
    let dir = p.substring_char(0, n - 3);
    if has_char(dir, '/') {
        return false;
    }
    assert(dir_rule_name(p@) == Some(dir@));
    let mut j: usize = 0;
    while j < c.len()
        invariant
            j <= c@.len(),
            p@.len() >= 3,
            dir@ == p@.subrange(0, p@.len() - 3),
            dir_rule_name(p@) == Some(dir@),
            forall|k: int| 0 <= k < j ==> c@[k]@ != dir@,
        decreases c@.len() - j,
    {
        if str_eq(c[j].as_str(), dir) {
            assert(views(c@)[j as int] == dir@);
            return true;
        }
        j = j + 1;
    }
    assert(!views(c@).contains(dir@)) by {
        if views(c@).contains(dir@) {
            let k = choose|k: int| 0 <= k < views(c@).len() && views(c@)[k] == dir@;
            assert(c@[k]@ == dir@);
        }
    }
    false
}

/// The same rule set, supplied in any order and with any repetition, makes
/// the same exclusion decisions.
pub proof fn lemma_exclusion_order_independent(a: Seq<Seq<char>>, b: Seq<Seq<char>>, c: Seq<Seq<char>>)
    requires
        a.to_set() == b.to_set(),
    ensures
        spec_excluded(valid_patterns(a), c) == spec_excluded(valid_patterns(b), c),
{
    broadcast use vstd::set::group_set_axioms;

    lemma_excluded_by_member(a, c);
    lemma_excluded_by_member(b, c);
    assert forall|p: Seq<char>| a.contains(p) <==> b.contains(p) by {
        assert(a.to_set().contains(p) == a.contains(p));
        assert(b.to_set().contains(p) == b.contains(p));
        assert(a.to_set().contains(p) == b.to_set().contains(p));
    }
}

/// The rules kept from `s` exclude a path exactly when some supplied rule
/// that compiles excludes it.
proof fn lemma_excluded_by_member(s: Seq<Seq<char>>, c: Seq<Seq<char>>)
    ensures
        spec_excluded(valid_patterns(s), c) <==> exists|p: Seq<char>|
            s.contains(p) && glob_valid(p) && #[trigger] rule_excludes(p, c),
{
    let v = valid_patterns(s);
    if spec_excluded(v, c) {
        let i = choose|i: int| 0 <= i < v.len() && rule_excludes(#[trigger] v[i], c);
        lemma_valid_patterns_contains(s, v[i]);
    }
    if exists|p: Seq<char>| s.contains(p) && glob_valid(p) && #[trigger] rule_excludes(p, c) {
        let p = choose|p: Seq<char>| s.contains(p) && glob_valid(p) && #[trigger] rule_excludes(p, c);
        lemma_valid_patterns_contains(s, p);
        let i = choose|i: int| 0 <= i < v.len() && v[i] == p;
        assert(rule_excludes(v[i], c));
    }
}

/// A supplied rule `<name>/**`, with no '/' in `<name>`, excludes every path
/// that has `<name>` as a component, at any depth.
pub proof fn lemma_dir_rule_excludes_at_any_depth(
    patterns: Seq<Seq<char>>,
    name: Seq<char>,
    c: Seq<Seq<char>>,
)
    requires
        patterns.contains(name + "/**"@),
        glob_valid(name + "/**"@),
        !name.contains('/'),
        c.contains(name),
    ensures
        spec_excluded(valid_patterns(patterns), c),
{
    reveal_strlit("/**");
    let p = name + "/**"@;
    assert(p.subrange(0, p.len() - 3) =~= name);
    assert(p.subrange(p.len() - 3, p.len() as int) =~= "/**"@);
    assert(dir_rule_name(p) == Some(name));
    assert(rule_excludes(p, c));
    lemma_excluded_by_member(patterns, c);
}

} // verus!
