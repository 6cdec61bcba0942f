//! Allowlist patterns: exact domains, wildcard sub-domains, and the
//! universal wildcard.

use crate::text::{
    chars_of, has_suffix, lemma_lower_idempotent, lemma_trim_fixed, lemma_trim_lower, lower,
    same_chars, slice_of, string_of, to_lower, trim, trim_bounds,
};
use vstd::prelude::*;

verus! {

/// A pattern for matching domain names.
#[derive(Debug, Clone, PartialEq, Eq)]
pub enum DomainPattern {
    /// Matches exactly this domain (e.g. `github.com`).
    Exact(String),
    /// Matches the domain itself and every sub-domain of it
    /// (`*.github.com` matches `github.com` and `api.github.com`).
    WildcardSubdomain(String),
    /// Matches everything (`*`).
    Wildcard,
}

/// The mathematical value of a [`DomainPattern`].
pub ghost enum PatternSpec {
    Exact(Seq<char>),
    WildcardSubdomain(Seq<char>),
    Wildcard,
}

impl View for DomainPattern {
    type V = PatternSpec;

    open spec fn view(&self) -> PatternSpec {
        match self {
            DomainPattern::Exact(d) => PatternSpec::Exact(d@),
            DomainPattern::WildcardSubdomain(s) => PatternSpec::WildcardSubdomain(s@),
            DomainPattern::Wildcard => PatternSpec::Wildcard,
        }
    }
}

impl PatternSpec {
    /// The pattern that a source string denotes: the string is trimmed and
    /// ASCII lower-cased; `*` is the universal wildcard, `*.X` the wildcard
    /// for `X` and its sub-domains, anything else an exact domain.
    pub open spec fn parse(raw: Seq<char>) -> PatternSpec {
        let s = lower(trim(raw));
        if s == seq!['*'] {
            PatternSpec::Wildcard
        } else if seq!['*', '.'].is_prefix_of(s) {
            PatternSpec::WildcardSubdomain(s.skip(2))
        } else {
            PatternSpec::Exact(s)
        }
    }

    /// Whether the pattern admits `domain`. The candidate is ASCII
    /// lower-cased before it is compared.
    pub open spec fn matches(self, domain: Seq<char>) -> bool {
        let d = lower(domain);
        match self {
            PatternSpec::Wildcard => true,
            PatternSpec::Exact(e) => d == e,
            PatternSpec::WildcardSubdomain(suffix) => d == suffix || (seq!['.']
                + suffix).is_suffix_of(d),
        }
    }

    /// The pattern written back as a string: `*`, `*.suffix`, or the exact
    /// domain.
    pub open spec fn render(self) -> Seq<char> {
        match self {
            PatternSpec::Wildcard => seq!['*'],
            PatternSpec::Exact(e) => e,
            PatternSpec::WildcardSubdomain(suffix) => seq!['*', '.'] + suffix,
        }
    }
}

impl DomainPattern {
    /// Parses a pattern string into a `DomainPattern`.
    pub fn parse(s: &str) -> (p: DomainPattern)
        ensures
            p@ == PatternSpec::parse(s@),
    {
        let raw = chars_of(s);
        let (start, end) = trim_bounds(&raw);
        let trimmed = slice_of(&raw, start, end);
        let low = to_lower(&trimmed);
        if low.len() == 1 && low[0] == '*' {
            assert(low@ =~= seq!['*']);
            return DomainPattern::Wildcard;
        }
        if low.len() >= 2 && low[0] == '*' && low[1] == '.' {
            assert(low@.subrange(0, 2) =~= seq!['*', '.']);
            let suffix = slice_of(&low, 2, low.len());
            return DomainPattern::WildcardSubdomain(string_of(&suffix));
        }
        proof {
            if seq!['*', '.'].is_prefix_of(low@) {
                assert(low@.subrange(0, 2)[0] == '*');
                assert(low@.subrange(0, 2)[1] == '.');
            }
            if low@ == seq!['*'] {
                assert(seq!['*'].len() == 1);
                assert(seq!['*'][0] == '*');
            }
        }
        DomainPattern::Exact(string_of(&low))
    }

    /// Checks whether a domain matches this pattern.
    pub fn matches(&self, domain: &str) -> (r: bool)
        ensures
            r == self@.matches(domain@),
    {
        match self {
            DomainPattern::Wildcard => true,
            DomainPattern::Exact(d) => {
                let dom = to_lower(&chars_of(domain));
                let want = chars_of(d.as_str());
                same_chars(&dom, &want)
            },
            DomainPattern::WildcardSubdomain(suffix) => {
                let dom = to_lower(&chars_of(domain));
                let want = chars_of(suffix.as_str());
                if same_chars(&dom, &want) {
                    return true;
                }
                let mut dotted: Vec<char> = Vec::new();
                dotted.push('.');
                crate::text::push_all(&mut dotted, &want);
                has_suffix(&dom, &dotted)
            },
        }
    }

    /// Writes the pattern back as a string: `*`, `*.suffix`, or the exact
    /// domain.
    pub fn render(&self) -> (s: String)
        ensures
            s@ == self@.render(),
    {
        match self {
            DomainPattern::Wildcard => {
                let mut out: Vec<char> = Vec::new();
                out.push('*');
                assert(out@ =~= seq!['*']);
                string_of(&out)
            },
            DomainPattern::Exact(d) => d.clone(),
            DomainPattern::WildcardSubdomain(suffix) => {
                let mut out: Vec<char> = Vec::new();
                out.push('*');
                out.push('.');
                assert(out@ =~= seq!['*', '.']);
                let tail = chars_of(suffix.as_str());
                crate::text::push_all(&mut out, &tail);
                string_of(&out)
            },
        }
    }
}

/// The universal wildcard admits every domain.
pub proof fn law_wildcard_matches_everything(domain: Seq<char>)
    ensures
        PatternSpec::parse(seq!['*']) == PatternSpec::Wildcard,
        PatternSpec::parse(seq!['*']).matches(domain),
{
    let star = seq!['*'];
    lemma_trim_fixed(star);
    assert(lower(star) =~= star);
}

/// A pattern parsed from a string without surrounding white space admits
/// that string, and every string that differs from it only in the case of
/// ASCII letters.
pub proof fn law_parse_matches_source(source: Seq<char>, candidate: Seq<char>)
    requires
        trim(source) == source,
        lower(candidate) == lower(source),
    ensures
        PatternSpec::parse(source).matches(candidate),
{
    let s = lower(source);
    if s == seq!['*'] {
    } else if seq!['*', '.'].is_prefix_of(s) {
        let suffix = s.skip(2);
        let dotted = seq!['.'] + suffix;
        assert(s.subrange(0, 2)[1] == '.');
        assert(s.subrange(s.len() - dotted.len(), s.len() as int) =~= dotted);
    } else {
    }
}

/// Parsing looks at the source only up to the case of ASCII letters.
pub proof fn law_parse_ignores_case(a: Seq<char>, b: Seq<char>)
    requires
        lower(a) == lower(b),
    ensures
        PatternSpec::parse(a) == PatternSpec::parse(b),
{
    lemma_trim_lower(a);
    lemma_trim_lower(b);
}

/// Matching looks at the candidate only up to the case of ASCII letters.
pub proof fn law_matches_ignores_case(p: PatternSpec, a: Seq<char>, b: Seq<char>)
    requires
        lower(a) == lower(b),
    ensures
        p.matches(a) == p.matches(b),
{
}

/// A wildcard for `suffix` admits `suffix` itself and every `label.suffix`,
/// whatever the case of the candidate.
pub proof fn law_wildcard_subdomain_is_inclusive(suffix: Seq<char>, label: Seq<char>)
    requires
        lower(suffix) == suffix,
    ensures
        PatternSpec::WildcardSubdomain(suffix).matches(suffix),
        PatternSpec::WildcardSubdomain(suffix).matches(label + seq!['.'] + suffix),
{
    let cand = label + seq!['.'] + suffix;
    let dotted = seq!['.'] + suffix;
    let d = lower(cand);
    lemma_lower_idempotent(suffix);
    assert(d.subrange(d.len() - dotted.len(), d.len() as int) =~= dotted) by {
        assert forall|i: int| 0 <= i < dotted.len() implies d[d.len() - dotted.len() + i]
            == dotted[i] by {
            if i > 0 {
                assert(cand[label.len() + i] == suffix[i - 1]);
                assert(lower(suffix)[i - 1] == crate::text::lower_char(suffix[i - 1]));
            }
        }
    }
}

} // verus!
