//! Patterns over domain names, as delegations use them.
//!
//! A pattern is a list of labels like a name, in which `*` stands for what
//! is not spelled out. Reading a pattern from text and matching it against a
//! name are done by the `kubizone_common` crate.

use vstd::prelude::*;
use crate::domain::{is_subdomain, is_suffix, FullyQualifiedDomainName};
use crate::text::{copy_strings, same_strings};

verus! {

/// Why a text is not a pattern: what is wrong with one of its labels.
#[derive(Debug, Clone, Copy, PartialEq, Eq, Structural)]
pub enum PatternError {
    /// A hyphen stands at the given position, where none may stand.
    IllegalHyphen(usize),
    /// The label holds this character, which no label may hold.
    InvalidCharacter(char),
    /// The label has this many characters, more than 63.
    TooLong(usize),
    /// The label is empty.
    EmptyString,
    /// The label holds more than one `*`.
    MultipleWildcards,
}

/// What `kubizone_common` makes of a text that is read as a pattern: the
/// labels, or the reason why it is none.
pub uninterp spec fn pattern_parse(text: Seq<char>) -> Result<Seq<Seq<char>>, PatternError>;

/// Whether `kubizone_common` finds that the pattern with the labels
/// `pattern` matches the fully qualified name with the labels `name`.
pub uninterp spec fn wildcard_match(pattern: Seq<Seq<char>>, name: Seq<Seq<char>>) -> bool;

/// Whether a label is spelled out: it holds no `*`.
pub open spec fn literal_label(label: Seq<char>) -> bool {
    !label.contains('*')
}

/// Whether every one of `labels` is spelled out.
pub open spec fn literal_labels(labels: Seq<Seq<char>>) -> bool {
    forall|i: int| 0 <= i < labels.len() ==> literal_label(#[trigger] labels[i])
}

/// Whether `pattern` is a `*` followed by labels that are spelled out.
pub open spec fn leading_wildcard(pattern: Seq<Seq<char>>) -> bool {
    &&& pattern.len() >= 1
    &&& pattern[0] == seq!['*']
    &&& literal_labels(pattern.subrange(1, pattern.len() as int))
}

/// Whether the pattern with the labels `pattern` matches the fully
/// qualified name with the labels `name`.
///
/// A pattern that is spelled out matches the name with the same labels and
/// no other. A `*` in front of labels that are spelled out matches every
/// name that ends with those labels and has at least one label more. For any
/// other pattern, one with a `*` inside a label or behind the first label,
/// the answer is the one of `kubizone_common`.
pub open spec fn pattern_match(pattern: Seq<Seq<char>>, name: Seq<Seq<char>>) -> bool {
    if literal_labels(pattern) {
        pattern == name
    } else if leading_wildcard(pattern) {
        is_suffix(name, pattern.subrange(1, pattern.len() as int)) && name.len() >= pattern.len()
    } else {
        wildcard_match(pattern, name)
    }
}

/// The labels that reading a pattern gave, as texts.
pub open spec fn parsed_pattern(r: Result<Vec<String>, PatternError>) -> Result<
    Seq<Seq<char>>,
    PatternError,
> {
    match r {
        Ok(labels) => Ok(labels.deep_view()),
        Err(e) => Err(e),
    }
}

/// Splits a text that is written as a pattern into its labels.
///
/// Trusted: calls `Pattern::try_from(&str)` of `kubizone_common` and hands
/// out the labels as strings, or the crate's error. The outcome depends on
/// the text alone.
#[verifier::external_body]
fn parse_pattern(text: &str) -> (r: Result<Vec<String>, PatternError>)
    ensures
        parsed_pattern(r) == pattern_parse(text@),
{
    match kubizone_common::Pattern::try_from(text) {
        Ok(pattern) => Ok(pattern.iter().map(|segment| segment.to_string()).collect()),
        Err(kubizone_common::error::PatternSegmentError::IllegalHyphen(at)) => {
            Err(PatternError::IllegalHyphen(at))
        },
        Err(kubizone_common::error::PatternSegmentError::InvalidCharacter(c)) => {
            Err(PatternError::InvalidCharacter(c))
        },
        Err(kubizone_common::error::PatternSegmentError::TooLong(n)) => Err(PatternError::TooLong(n)),
        Err(kubizone_common::error::PatternSegmentError::EmptyString) => Err(PatternError::EmptyString),
        Err(kubizone_common::error::PatternSegmentError::MultipleWildcards) => {
            Err(PatternError::MultipleWildcards)
        },
    }
}

/// Whether a pattern matches a fully qualified name, both given by their
/// labels.
///
/// Trusted: builds a `Pattern` and a `FullyQualifiedDomainName` of
/// `kubizone_common` out of the labels as they are and calls
/// `Pattern::matches`. The outcome depends on the two label lists alone.
/// That function compares the labels from the right. A label without `*`
/// matches the same label only; a pattern never matches a name with fewer
/// labels, and matches one with more labels only if its first label is
/// `*`. So a pattern without any `*` matches exactly the name with the same
/// labels. A label `*` ends the comparison with a match. So a `*` in front
/// of labels without `*` matches exactly the names that end with those
/// labels and have at least one label more.
#[verifier::external_body]
fn labels_match(pattern: &Vec<String>, name: &Vec<String>) -> (r: bool)
    ensures
        r == if literal_labels(pattern.deep_view()) {
            pattern.deep_view() == name.deep_view()
        } else if leading_wildcard(pattern.deep_view()) {
            is_suffix(
                name.deep_view(),
                pattern.deep_view().subrange(1, pattern.deep_view().len() as int),
            ) && name.deep_view().len() >= pattern.deep_view().len()
        } else {
            wildcard_match(pattern.deep_view(), name.deep_view())
        },
{
    let pattern: kubizone_common::Pattern = pattern.iter().map(
        |label| kubizone_common::PatternSegment::from(kubizone_common::DomainSegment::new_unchecked(label)),
    ).collect();
    let name: kubizone_common::FullyQualifiedDomainName = name.iter().map(
        |label| kubizone_common::DomainSegment::new_unchecked(label),
    ).collect();
    pattern.matches(&name)
}

/// A pattern: its labels, leftmost first.
#[derive(Debug, PartialEq, Eq)]
pub struct Pattern {
    pub labels: Vec<String>,
}

impl View for Pattern {
    type V = Seq<Seq<char>>;

    open spec fn view(&self) -> Seq<Seq<char>> {
        self.labels.deep_view()
    }
}

impl DeepView for Pattern {
    type V = Seq<Seq<char>>;

    open spec fn deep_view(&self) -> Seq<Seq<char>> {
        self@
    }
}

impl Clone for Pattern {
    fn clone(&self) -> (r: Self)
        ensures
            r@ == self@,
    {
        Pattern { labels: copy_strings(&self.labels) }
    }
}

impl Pattern {
    /// The pattern without labels. Anchored at a zone it stands for the
    /// zone's own name.
    pub fn origin() -> (r: Pattern)
        ensures
            r@ == Seq::<Seq<char>>::empty(),
    {
        let r = Pattern { labels: Vec::new() };
        assert(r@ =~= Seq::<Seq<char>>::empty());
        r
    }

    /// Reads a pattern from its text, as `kubizone_common` does.
    pub fn parse(text: &str) -> (r: Result<Pattern, PatternError>)
        ensures
            match r {
                Ok(pattern) => pattern_parse(text@) == Ok::<Seq<Seq<char>>, PatternError>(
                    pattern@,
                ),
                Err(e) => pattern_parse(text@) == Err::<Seq<Seq<char>>, PatternError>(e),
            },
    {
        match parse_pattern(text) {
            Ok(labels) => Ok(Pattern { labels }),
            Err(e) => Err(e),
        }
    }

    /// Whether two patterns have the same labels.
    pub fn same(&self, other: &Pattern) -> (r: bool)
        ensures
            r == (self@ == other@),
    {
        same_strings(&self.labels, &other.labels)
    }

    /// Anchors the pattern at `origin`: the labels of the pattern, then those
    /// of `origin`.
    pub fn with_origin(&self, origin: &FullyQualifiedDomainName) -> (r: Pattern)
        ensures
            r@ == self@ + origin@,
    {
        let mut labels = copy_strings(&self.labels);
        let mut i: usize = 0;
        let ghost own = self@;
        while i < origin.labels.len()
            invariant
                i <= origin.labels.len(),
                own == self@,
                labels.deep_view() == own + origin@.subrange(0, i as int),
            decreases origin.labels.len() - i,
        {
            let ghost before = labels.deep_view();
            labels.push(origin.labels[i].clone());
            assert(labels.deep_view() =~= before.push(origin.labels[i as int]@));
            assert(origin@.subrange(0, i + 1) =~= origin@.subrange(0, i as int).push(
                origin.labels[i as int]@,
            ));
            assert(labels.deep_view() =~= own + origin@.subrange(0, i + 1));
            i += 1;
        }
        assert(origin@.subrange(0, i as int) =~= origin@);
        Pattern { labels }
    }

    /// Whether the pattern matches `name`, as `kubizone_common` decides it.
    pub fn matches(&self, name: &FullyQualifiedDomainName) -> (r: bool)
        ensures
            r == pattern_match(self@, name@),
    {
        labels_match(&self.labels, &name.labels)
    }

    /// Whether the pattern, anchored at `origin`, matches `name`.
    pub fn matches_under(
        &self,
        origin: &FullyQualifiedDomainName,
        name: &FullyQualifiedDomainName,
    ) -> (r: bool)
        ensures
            r == pattern_match(self@ + origin@, name@),
    {
        self.with_origin(origin).matches(name)
    }
}


/// A `*` under a zone lets in everything below the zone: where the labels
/// of the zone's name are spelled out, the pattern `*`, anchored at the
/// zone, matches exactly the names that lie strictly below the zone,
/// however many labels they have in front.
pub proof fn lemma_wildcard_matches_all_below(origin: Seq<Seq<char>>, name: Seq<Seq<char>>)
    requires
        literal_labels(origin),
    ensures
        pattern_match(seq![seq!['*']] + origin, name) == is_subdomain(name, origin),
{
    let pattern = seq![seq!['*']] + origin;
    assert(pattern[0] == seq!['*']);
    assert(pattern[0][0] == '*');
    assert(pattern[0].contains('*'));
    assert(!literal_label(pattern[0]));
    assert(!literal_labels(pattern));
    assert(pattern.subrange(1, pattern.len() as int) =~= origin);
    assert(leading_wildcard(pattern));
    if is_suffix(name, origin) {
        if name.len() == origin.len() {
            assert(name.subrange(0, name.len() as int) =~= name);
        }
    }
}

/// A pattern that is spelled out lets in one name: where the labels of the
/// pattern and of the zone's name are spelled out, the pattern, anchored at
/// the zone, matches exactly the name made of the pattern's labels and the
/// zone's.
pub proof fn lemma_literal_matches_itself(
    pattern: Seq<Seq<char>>,
    origin: Seq<Seq<char>>,
    name: Seq<Seq<char>>,
)
    requires
        literal_labels(pattern),
        literal_labels(origin),
    ensures
        pattern_match(pattern + origin, name) == (name == pattern + origin),
{
    let anchored = pattern + origin;
    assert forall|i: int| 0 <= i < anchored.len() implies literal_label(#[trigger] anchored[i]) by {
        if i < pattern.len() {
            assert(anchored[i] == pattern[i]);
        } else {
            assert(anchored[i] == origin[i - pattern.len()]);
        }
    }
}

} // verus!
