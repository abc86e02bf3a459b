//! Domain names as lists of labels.
//!
//! A name is a list of labels, leftmost first. A fully qualified name is
//! anchored at the root and is written with a trailing dot; a partially
//! qualified name is not anchored by itself and is written without one.
//! Parsing and label validation are done by the `kubizone_common` crate; the
//! algebra on label lists is done here.

use vstd::prelude::*;
use crate::text::{copy_strings, push_dot, push_text, same_strings, same_text};

verus! {

/// Why a text is not a domain name.
#[derive(Debug, Clone, Copy, PartialEq, Eq, Structural)]
pub enum NameError {
    /// The text has no trailing dot, where a fully qualified name is asked for.
    NotFullyQualified,
    /// The text has a trailing dot, where a partially qualified name is asked for.
    NotPartiallyQualified,
    /// One of the labels is empty, too long, or holds a character or a hyphen
    /// where none may stand.
    InvalidLabel,
    /// A wildcard label stands elsewhere than in front.
    NonLeadingWildcard,
    /// The name as a whole is longer than 253 octets.
    TooLong,
}

/// Whether `c` may stand in a label: a lower-case letter, a digit, `_`, `-`,
/// or the wildcard `*`.
pub open spec fn valid_label_char(c: char) -> bool {
    ||| 'a' <= c <= 'z'
    ||| '0' <= c <= '9'
    ||| c == '_'
    ||| c == '-'
    ||| c == '*'
}

/// Whether `label` is a label: 1 to 63 characters, each of them allowed.
pub open spec fn valid_label(label: Seq<char>) -> bool {
    &&& 1 <= label.len() <= 63
    &&& forall|i: int| 0 <= i < label.len() ==> valid_label_char(#[trigger] label[i])
}

/// Whether every one of `labels` is a label.
pub open spec fn valid_labels(labels: Seq<Seq<char>>) -> bool {
    forall|i: int| 0 <= i < labels.len() ==> valid_label(#[trigger] labels[i])
}

/// Whether `text` ends in the root separator.
pub open spec fn ends_with_dot(text: Seq<char>) -> bool {
    text.len() > 0 && text.last() == '.'
}

/// Whether the labels of `parent` are the last labels of `name`.
pub open spec fn is_suffix(name: Seq<Seq<char>>, parent: Seq<Seq<char>>) -> bool {
    &&& parent.len() <= name.len()
    &&& name.subrange(name.len() - parent.len(), name.len() as int) == parent
}

/// Whether `name` lies strictly below `parent`: it ends with the labels of
/// `parent` and is not `parent` itself.
pub open spec fn is_subdomain(name: Seq<Seq<char>>, parent: Seq<Seq<char>>) -> bool {
    is_suffix(name, parent) && name != parent
}

/// The labels of `name` in front of those of `parent`. Meaningful where
/// `name` ends with `parent`.
pub open spec fn relative_labels(name: Seq<Seq<char>>, parent: Seq<Seq<char>>) -> Seq<Seq<char>>
    recommends
        is_suffix(name, parent),
{
    name.subrange(0, name.len() - parent.len())
}

/// The text of a fully qualified name: every label followed by a dot.
pub open spec fn fully_qualified_text(labels: Seq<Seq<char>>) -> Seq<char>
    decreases labels.len(),
{
    if labels.len() == 0 {
        Seq::empty()
    } else {
        fully_qualified_text(labels.drop_last()) + labels.last() + seq!['.']
    }
}

/// The text of a partially qualified name: the labels with a dot between
/// each two.
pub open spec fn partially_qualified_text(labels: Seq<Seq<char>>) -> Seq<char>
    decreases labels.len(),
{
    if labels.len() == 0 {
        Seq::empty()
    } else if labels.len() == 1 {
        labels[0]
    } else {
        partially_qualified_text(labels.drop_last()) + seq!['.'] + labels.last()
    }
}

/// Number of characters in all of `labels` together, separators not counted.
pub open spec fn label_chars(labels: Seq<Seq<char>>) -> nat
    decreases labels.len(),
{
    if labels.len() == 0 {
        0
    } else {
        label_chars(labels.drop_last()) + labels.last().len()
    }
}

/// Length of a name in octets, as it is written without the trailing dot:
/// the labels and a separator between each two.
pub open spec fn name_octets(labels: Seq<Seq<char>>) -> nat {
    if labels.len() == 0 {
        0
    } else {
        (label_chars(labels) + labels.len() - 1) as nat
    }
}

/// Longest name that is accepted, in octets.
pub const MAX_NAME_OCTETS: usize = 253;

/// What `kubizone_common` makes of a text that is read as a fully qualified
/// name: the labels, or the reason why it is none.
pub uninterp spec fn fully_qualified_parse(text: Seq<char>) -> Result<Seq<Seq<char>>, NameError>;

/// What `kubizone_common` makes of a text that is read as a partially
/// qualified name: the labels, or the reason why it is none.
pub uninterp spec fn partially_qualified_parse(text: Seq<char>) -> Result<
    Seq<Seq<char>>,
    NameError,
>;

/// The labels that a parse gave, as texts.
pub open spec fn parsed_labels(r: Result<Vec<String>, NameError>) -> Result<
    Seq<Seq<char>>,
    NameError,
> {
    match r {
        Ok(labels) => Ok(labels.deep_view()),
        Err(e) => Err(e),
    }
}

/// Splits a text that is written as a fully qualified name into its labels.
///
/// Trusted: calls `FullyQualifiedDomainName::try_from(&str)` of
/// `kubizone_common` and hands out the labels as strings. The outcome depends
/// on the text alone. A text without a trailing dot is refused as not fully
/// qualified, and no other text is refused for that reason; the other two
/// errors of the crate are handed on as they are. Where the parse succeeds
/// there is at least one label, and every label has passed the crate's
/// check: lower case, 1 to 63 characters out of letters, digits, `_`, `-`
/// and `*`.
#[verifier::external_body]
fn parse_fully_qualified(text: &str) -> (r: Result<Vec<String>, NameError>)
    ensures
        parsed_labels(r) == fully_qualified_parse(text@),
        (r matches Err(NameError::NotFullyQualified)) <==> !ends_with_dot(text@),
        r matches Err(e) ==> e != NameError::NotPartiallyQualified && e != NameError::TooLong,
        r matches Ok(labels) ==> labels.len() >= 1 && valid_labels(labels.deep_view()),
{
    match kubizone_common::FullyQualifiedDomainName::try_from(text) {
        Ok(name) => Ok(name.iter().map(|segment| segment.to_string()).collect()),
        Err(kubizone_common::error::FullyQualifiedDomainNameError::DomainIsPartiallyQualified) => {
            Err(NameError::NotFullyQualified)
        },
        Err(kubizone_common::error::FullyQualifiedDomainNameError::SegmentError(_)) => {
            Err(NameError::InvalidLabel)
        },
        Err(kubizone_common::error::FullyQualifiedDomainNameError::NonLeadingWildcard) => {
            Err(NameError::NonLeadingWildcard)
        },
    }
}

/// Splits a text that is written as a partially qualified name into its
/// labels.
///
/// Trusted: calls `PartiallyQualifiedDomainName::try_from(&str)` of
/// `kubizone_common` and hands out the labels as strings. The outcome depends
/// on the text alone. A text with a trailing dot is refused as fully
/// qualified, and no other text is refused for that reason; the other two
/// errors of the crate are handed on as they are. Where the parse succeeds
/// there is at least one label, and every label has passed the crate's
/// check: lower case, 1 to 63 characters out of letters, digits, `_`, `-`
/// and `*`.
#[verifier::external_body]
fn parse_partially_qualified(text: &str) -> (r: Result<Vec<String>, NameError>)
    ensures
        parsed_labels(r) == partially_qualified_parse(text@),
        (r matches Err(NameError::NotPartiallyQualified)) <==> ends_with_dot(text@),
        r matches Err(e) ==> e != NameError::NotFullyQualified && e != NameError::TooLong,
        r matches Ok(labels) ==> labels.len() >= 1 && valid_labels(labels.deep_view()),
{
    match kubizone_common::PartiallyQualifiedDomainName::try_from(text) {
        Ok(name) => Ok(name.iter().map(|segment| segment.to_string()).collect()),
        Err(kubizone_common::error::PartiallyQualifiedDomainNameError::DomainIsFullyQualified) => {
            Err(NameError::NotPartiallyQualified)
        },
        Err(kubizone_common::error::PartiallyQualifiedDomainNameError::SegmentError(_)) => {
            Err(NameError::InvalidLabel)
        },
        Err(kubizone_common::error::PartiallyQualifiedDomainNameError::NonLeadingWildcard) => {
            Err(NameError::NonLeadingWildcard)
        },
    }
}


/// A fully qualified domain name: its labels, leftmost first. Written with a
/// dot after every label.
#[derive(Debug, PartialEq, Eq)]
pub struct FullyQualifiedDomainName {
    pub labels: Vec<String>,
}

/// A partially qualified domain name: its labels, leftmost first. Written
/// with a dot between each two labels.
#[derive(Debug, PartialEq, Eq)]
pub struct PartiallyQualifiedDomainName {
    pub labels: Vec<String>,
}

/// A domain name of either kind.
#[derive(Debug, PartialEq, Eq)]
pub enum DomainName {
    /// Anchored at the root.
    Full(FullyQualifiedDomainName),
    /// Not anchored by itself.
    Partial(PartiallyQualifiedDomainName),
}

/// Mathematical value of a [`DomainName`]: its kind and its labels.
pub enum DomainNameView {
    Full(Seq<Seq<char>>),
    Partial(Seq<Seq<char>>),
}

impl View for FullyQualifiedDomainName {
    type V = Seq<Seq<char>>;

    open spec fn view(&self) -> Seq<Seq<char>> {
        self.labels.deep_view()
    }
}

impl DeepView for FullyQualifiedDomainName {
    type V = Seq<Seq<char>>;

    open spec fn deep_view(&self) -> Seq<Seq<char>> {
        self@
    }
}

impl View for PartiallyQualifiedDomainName {
    type V = Seq<Seq<char>>;

    open spec fn view(&self) -> Seq<Seq<char>> {
        self.labels.deep_view()
    }
}

impl DeepView for PartiallyQualifiedDomainName {
    type V = Seq<Seq<char>>;

    open spec fn deep_view(&self) -> Seq<Seq<char>> {
        self@
    }
}

impl View for DomainName {
    type V = DomainNameView;

    open spec fn view(&self) -> DomainNameView {
        match self {
            DomainName::Full(name) => DomainNameView::Full(name@),
            DomainName::Partial(name) => DomainNameView::Partial(name@),
        }
    }
}

impl DeepView for DomainName {
    type V = DomainNameView;

    open spec fn deep_view(&self) -> DomainNameView {
        self@
    }
}

impl Clone for FullyQualifiedDomainName {
    fn clone(&self) -> (r: Self)
        ensures
            r@ == self@,
    {
        FullyQualifiedDomainName { labels: copy_strings(&self.labels) }
    }
}

impl Clone for PartiallyQualifiedDomainName {
    fn clone(&self) -> (r: Self)
        ensures
            r@ == self@,
    {
        PartiallyQualifiedDomainName { labels: copy_strings(&self.labels) }
    }
}

impl Clone for DomainName {
    fn clone(&self) -> (r: Self)
        ensures
            r@ == self@,
    {
        match self {
            DomainName::Full(name) => DomainName::Full(name.clone()),
            DomainName::Partial(name) => DomainName::Partial(name.clone()),
        }
    }
}

/// The characters of a prefix of a name are among those of the whole name.
pub proof fn lemma_label_chars_prefix(labels: Seq<Seq<char>>, i: int)
    requires
        0 <= i <= labels.len(),
    ensures
        label_chars(labels.subrange(0, i)) <= label_chars(labels),
    decreases labels.len(),
{
    if i == labels.len() {
        assert(labels.subrange(0, i) =~= labels);
    } else {
        assert(labels.drop_last().subrange(0, i) =~= labels.subrange(0, i));
        lemma_label_chars_prefix(labels.drop_last(), i);
    }
}

/// Whether a name of one label or more is at most 253 octets long.
fn within_name_limit(labels: &Vec<String>) -> (r: bool)
    requires
        labels.len() >= 1,
    ensures
        r == (name_octets(labels.deep_view()) <= MAX_NAME_OCTETS),
{
    let ghost all = labels.deep_view();
    let mut chars: usize = 0;
    let mut i: usize = 0;
    assert(all.subrange(0, 0) =~= Seq::<Seq<char>>::empty());
    while i < labels.len()
        invariant
            i <= labels.len(),
            all == labels.deep_view(),
            chars == label_chars(all.subrange(0, i as int)),
            chars + i <= MAX_NAME_OCTETS + 1,
        decreases labels.len() - i,
    {
        let n = labels[i].unicode_len();
        proof {
            assert(all.subrange(0, i + 1).drop_last() =~= all.subrange(0, i as int));
            assert(all.subrange(0, i + 1).last() == labels[i as int]@);
            lemma_label_chars_prefix(all, i + 1);
        }
        if n > MAX_NAME_OCTETS - chars || chars + n + i > MAX_NAME_OCTETS {
            return false;
        }
        chars = chars + n;
        i += 1;
    }
    assert(all.subrange(0, i as int) =~= all);
    chars + i - 1 <= MAX_NAME_OCTETS
}


/// Whether `text` ends in a dot.
fn has_trailing_dot(text: &str) -> (r: bool)
    ensures
        r == ends_with_dot(text@),
{
    let n = text.unicode_len();
    if n == 0 {
        false
    } else {
        text.get_char(n - 1) == '.'
    }
}

/// Appends copies of the strings of `more` to `labels`.
fn extend_labels(labels: &mut Vec<String>, more: &Vec<String>, from: usize, to: usize)
    requires
        from <= to <= more.len(),
    ensures
        final(labels).deep_view() == old(labels).deep_view() + more.deep_view().subrange(
            from as int,
            to as int,
        ),
{
    let ghost before = labels.deep_view();
    let mut i: usize = from;
    while i < to
        invariant
            from <= i <= to,
            to <= more.len(),
            labels.len() == before.len() + (i - from),
            forall|j: int| 0 <= j < before.len() ==> labels[j]@ == before[j],
            forall|j: int| from <= j < i ==> labels[before.len() + (j - from)]@ == more[j]@,
        decreases to - i,
    {
        labels.push(more[i].clone());
        i += 1;
    }
    assert(labels.deep_view() =~= before + more.deep_view().subrange(from as int, to as int));
}

impl FullyQualifiedDomainName {
    /// Whether the name has one label or more and every label is a valid one.
    pub open spec fn well_formed(&self) -> bool {
        self@.len() >= 1 && valid_labels(self@)
    }

    /// Reads a fully qualified name from its text.
    ///
    /// Returns the name if `kubizone_common` accepts the text and the name is
    /// no longer than 253 octets; else the reason.
    pub fn parse(text: &str) -> (r: Result<FullyQualifiedDomainName, NameError>)
        ensures
            match r {
                Ok(name) => fully_qualified_parse(text@) == Ok::<Seq<Seq<char>>, NameError>(name@)
                    && name_octets(name@) <= MAX_NAME_OCTETS && name.well_formed(),
                Err(e) => match fully_qualified_parse(text@) {
                    Ok(labels) => e == NameError::TooLong && name_octets(labels)
                        > MAX_NAME_OCTETS,
                    Err(reason) => e == reason,
                },
            },
            (r matches Err(NameError::NotFullyQualified)) <==> !ends_with_dot(text@),
            !(r matches Err(NameError::NotPartiallyQualified)),
    {
        match parse_fully_qualified(text) {
            Ok(labels) => {
                if within_name_limit(&labels) {
                    Ok(FullyQualifiedDomainName { labels })
                } else {
                    Err(NameError::TooLong)
                }
            },
            Err(e) => Err(e),
        }
    }

    /// Number of labels.
    pub fn label_count(&self) -> (r: usize)
        ensures
            r == self@.len(),
    {
        self.labels.len()
    }

    /// Whether two names have the same labels.
    pub fn same(&self, other: &FullyQualifiedDomainName) -> (r: bool)
        ensures
            r == (self@ == other@),
    {
        same_strings(&self.labels, &other.labels)
    }

    /// Whether this name lies strictly below `parent`: it ends with the labels
    /// of `parent` and is not `parent` itself.
    pub fn is_subdomain_of(&self, parent: &FullyQualifiedDomainName) -> (r: bool)
        ensures
            r == is_subdomain(self@, parent@),
    {
        let n = self.labels.len();
        let m = parent.labels.len();
        if m >= n {
            proof {
                if m == n && is_suffix(self@, parent@) {
                    assert(self@.subrange(0, n as int) =~= self@);
                }
            }
            return false;
        }
        let off = n - m;
        let mut i: usize = 0;
        while i < m
            invariant
                i <= m,
                m < n,
                off == n - m,
                n == self.labels.len(),
                m == parent.labels.len(),
                forall|j: int| 0 <= j < i ==> self.labels[off + j]@ == parent.labels[j]@,
            decreases m - i,
        {
            if self.labels[off + i] != parent.labels[i] {
                assert(self@.subrange(n - m, n as int)[i as int] != parent@[i as int]);
                return false;
            }
            i += 1;
        }
        assert(self@.subrange(n - m, n as int) =~= parent@);
        true
    }

    /// The labels of this name in front of those of `parent`, if this name
    /// lies strictly below `parent`.
    pub fn labels_relative_to(&self, parent: &FullyQualifiedDomainName) -> (r: Option<
        PartiallyQualifiedDomainName,
    >)
        ensures
            match r {
                Some(rest) => is_subdomain(self@, parent@) && rest@ == relative_labels(
                    self@,
                    parent@,
                ),
                None => !is_subdomain(self@, parent@),
            },
            self.well_formed() && r.is_some() ==> r.unwrap().well_formed(),
    {
        if !self.is_subdomain_of(parent) {
            return None;
        }
        let mut labels: Vec<String> = Vec::new();
        let keep = self.labels.len() - parent.labels.len();
        extend_labels(&mut labels, &self.labels, 0, keep);
        assert(labels.deep_view() =~= relative_labels(self@, parent@));
        proof {
            if keep == 0 {
                assert(self@.subrange(0, self@.len() as int) =~= self@);
            }
        }
        Some(PartiallyQualifiedDomainName { labels })
    }

    /// The name as text: every label followed by a dot.
    pub fn to_string(&self) -> (r: String)
        ensures
            r@ == fully_qualified_text(self@),
    {
        let mut out = String::new();
        let mut i: usize = 0;
        assert(self@.subrange(0, 0) =~= Seq::<Seq<char>>::empty());
        while i < self.labels.len()
            invariant
                i <= self.labels.len(),
                out@ == fully_qualified_text(self@.subrange(0, i as int)),
            decreases self.labels.len() - i,
        {
            proof {
                assert(self@.subrange(0, i + 1).drop_last() =~= self@.subrange(0, i as int));
                assert(self@.subrange(0, i + 1).last() == self.labels[i as int]@);
            }
            push_text(&mut out, self.labels[i].as_str());
            push_dot(&mut out);
            assert(out@ =~= fully_qualified_text(self@.subrange(0, i as int))
                + self.labels[i as int]@ + seq!['.']);
            i += 1;
        }
        assert(self@.subrange(0, i as int) =~= self@);
        out
    }

    /// Whether the name, written as text, is `text`.
    pub fn eq_text(&self, text: &str) -> (r: bool)
        ensures
            r == (fully_qualified_text(self@) == text@),
    {
        let own = self.to_string();
        same_text(own.as_str(), text)
    }
}

impl PartiallyQualifiedDomainName {
    /// Whether the name has one label or more and every label is a valid one.
    pub open spec fn well_formed(&self) -> bool {
        self@.len() >= 1 && valid_labels(self@)
    }

    /// Reads a partially qualified name from its text.
    ///
    /// Returns the name if `kubizone_common` accepts the text and the name is
    /// no longer than 253 octets; else the reason.
    pub fn parse(text: &str) -> (r: Result<PartiallyQualifiedDomainName, NameError>)
        ensures
            match r {
                Ok(name) => partially_qualified_parse(text@) == Ok::<Seq<Seq<char>>, NameError>(
                    name@,
                ) && name_octets(name@) <= MAX_NAME_OCTETS && name.well_formed(),
                Err(e) => match partially_qualified_parse(text@) {
                    Ok(labels) => e == NameError::TooLong && name_octets(labels)
                        > MAX_NAME_OCTETS,
                    Err(reason) => e == reason,
                },
            },
            (r matches Err(NameError::NotPartiallyQualified)) <==> ends_with_dot(text@),
            !(r matches Err(NameError::NotFullyQualified)),
    {
        match parse_partially_qualified(text) {
            Ok(labels) => {
                if within_name_limit(&labels) {
                    Ok(PartiallyQualifiedDomainName { labels })
                } else {
                    Err(NameError::TooLong)
                }
            },
            Err(e) => Err(e),
        }
    }

    /// Number of labels.
    pub fn label_count(&self) -> (r: usize)
        ensures
            r == self@.len(),
    {
        self.labels.len()
    }

    /// Whether two names have the same labels.
    pub fn same(&self, other: &PartiallyQualifiedDomainName) -> (r: bool)
        ensures
            r == (self@ == other@),
    {
        same_strings(&self.labels, &other.labels)
    }

    /// Anchors the name at `origin`: the labels of this name, then those of
    /// `origin`.
    pub fn with_origin(&self, origin: &FullyQualifiedDomainName) -> (r: FullyQualifiedDomainName)
        ensures
            r@ == self@ + origin@,
            is_suffix(r@, origin@),
            self.well_formed() && origin.well_formed() ==> r.well_formed(),
    {
        let mut labels = copy_strings(&self.labels);
        extend_labels(&mut labels, &origin.labels, 0, origin.labels.len());
        assert(origin@.subrange(0, origin@.len() as int) =~= origin@);
        let r = FullyQualifiedDomainName { labels };
        assert(r@.subrange(r@.len() - origin@.len(), r@.len() as int) =~= origin@);
        r
    }

    /// The same labels, read as a fully qualified name.
    pub fn to_fully_qualified(&self) -> (r: FullyQualifiedDomainName)
        ensures
            r@ == self@,
            self.well_formed() ==> r.well_formed(),
    {
        FullyQualifiedDomainName { labels: copy_strings(&self.labels) }
    }

    /// The name as text: the labels with a dot between each two.
    pub fn to_string(&self) -> (r: String)
        ensures
            r@ == partially_qualified_text(self@),
    {
        let mut out = String::new();
        let mut i: usize = 0;
        assert(self@.subrange(0, 0) =~= Seq::<Seq<char>>::empty());
        while i < self.labels.len()
            invariant
                i <= self.labels.len(),
                out@ == partially_qualified_text(self@.subrange(0, i as int)),
            decreases self.labels.len() - i,
        {
            proof {
                assert(self@.subrange(0, i + 1).drop_last() =~= self@.subrange(0, i as int));
                assert(self@.subrange(0, i + 1).last() == self.labels[i as int]@);
                assert(self@.subrange(0, i + 1)[0] == self.labels[0]@);
            }
            if i > 0 {
                push_dot(&mut out);
            }
            push_text(&mut out, self.labels[i].as_str());
            proof {
                if i > 0 {
                    assert(out@ =~= partially_qualified_text(self@.subrange(0, i as int))
                        + seq!['.'] + self.labels[i as int]@);
                } else {
                    assert(out@ =~= self.labels[0]@);
                }
            }
            i += 1;
        }
        assert(self@.subrange(0, i as int) =~= self@);
        out
    }
}

/// What a text is as a domain name: fully qualified if it ends in a dot,
/// partially qualified if not; refused where `kubizone_common` refuses it or
/// where the name is longer than 253 octets.
pub open spec fn domain_name_parse(text: Seq<char>) -> Result<DomainNameView, NameError> {
    if ends_with_dot(text) {
        match fully_qualified_parse(text) {
            Ok(labels) => if name_octets(labels) <= MAX_NAME_OCTETS {
                Ok(DomainNameView::Full(labels))
            } else {
                Err(NameError::TooLong)
            },
            Err(e) => Err(e),
        }
    } else {
        match partially_qualified_parse(text) {
            Ok(labels) => if name_octets(labels) <= MAX_NAME_OCTETS {
                Ok(DomainNameView::Partial(labels))
            } else {
                Err(NameError::TooLong)
            },
            Err(e) => Err(e),
        }
    }
}

impl DomainNameView {
    /// The labels of the name.
    pub open spec fn labels(self) -> Seq<Seq<char>> {
        match self {
            DomainNameView::Full(labels) => labels,
            DomainNameView::Partial(labels) => labels,
        }
    }

    /// The name as text: with a trailing dot if and only if it is fully
    /// qualified.
    pub open spec fn text(self) -> Seq<char> {
        match self {
            DomainNameView::Full(labels) => fully_qualified_text(labels),
            DomainNameView::Partial(labels) => partially_qualified_text(labels),
        }
    }
}

impl DomainName {
    /// Whether the name has one label or more and every label is a valid one.
    pub open spec fn well_formed(&self) -> bool {
        self@.labels().len() >= 1 && valid_labels(self@.labels())
    }

    /// Reads a domain name from its text: a fully qualified one if the text
    /// ends in a dot, else a partially qualified one.
    pub fn parse(text: &str) -> (r: Result<DomainName, NameError>)
        ensures
            match r {
                Ok(name) => domain_name_parse(text@) == Ok::<DomainNameView, NameError>(name@)
                    && name.well_formed(),
                Err(e) => domain_name_parse(text@) == Err::<DomainNameView, NameError>(e),
            },
            r matches Ok(name) ==> (name@ is Full <==> ends_with_dot(text@)),
            r matches Err(e) ==> e == NameError::InvalidLabel || e == NameError::NonLeadingWildcard
                || e == NameError::TooLong,
    {
        if has_trailing_dot(text) {
            match FullyQualifiedDomainName::parse(text) {
                Ok(name) => Ok(DomainName::Full(name)),
                Err(e) => Err(e),
            }
        } else {
            match PartiallyQualifiedDomainName::parse(text) {
                Ok(name) => Ok(DomainName::Partial(name)),
                Err(e) => Err(e),
            }
        }
    }

    /// Whether the name is fully qualified.
    pub fn is_fully_qualified(&self) -> (r: bool)
        ensures
            r == (self@ is Full),
    {
        match self {
            DomainName::Full(_) => true,
            DomainName::Partial(_) => false,
        }
    }

    /// Whether the name is only partially qualified.
    pub fn is_partially_qualified(&self) -> (r: bool)
        ensures
            r == (self@ is Partial),
    {
        match self {
            DomainName::Full(_) => false,
            DomainName::Partial(_) => true,
        }
    }

    /// The labels of the name, read as a fully qualified name.
    pub fn to_fully_qualified(&self) -> (r: FullyQualifiedDomainName)
        ensures
            r@ == self@.labels(),
            self.well_formed() ==> r.well_formed(),
    {
        match self {
            DomainName::Full(name) => name.clone(),
            DomainName::Partial(name) => name.to_fully_qualified(),
        }
    }

    /// The name as text, with a trailing dot if and only if it is fully
    /// qualified.
    pub fn to_string(&self) -> (r: String)
        ensures
            r@ == self@.text(),
    {
        match self {
            DomainName::Full(name) => name.to_string(),
            DomainName::Partial(name) => name.to_string(),
        }
    }
}


/// A name that lies strictly below another has more labels.
pub proof fn lemma_subdomain_is_longer(name: Seq<Seq<char>>, parent: Seq<Seq<char>>)
    requires
        is_subdomain(name, parent),
    ensures
        parent.len() < name.len(),
{
    if parent.len() == name.len() {
        assert(name.subrange(0, name.len() as int) =~= name);
    }
}

/// Lying below is handed down: what lies strictly below a name lies
/// strictly below everything that the name lies below. Together with
/// [`lemma_subdomain_is_longer`] this makes the names a forest: no name
/// lies below itself, directly or by way of others.
pub proof fn lemma_subdomain_transitive(
    name: Seq<Seq<char>>,
    middle: Seq<Seq<char>>,
    top: Seq<Seq<char>>,
)
    requires
        is_subdomain(name, middle),
        is_subdomain(middle, top),
    ensures
        is_subdomain(name, top),
{
    lemma_subdomain_is_longer(name, middle);
    lemma_subdomain_is_longer(middle, top);
    let tail = name.subrange(name.len() - top.len(), name.len() as int);
    assert forall|i: int| 0 <= i < top.len() implies tail[i] == top[i] by {
        let in_middle = middle.len() - top.len() + i;
        assert(middle.subrange(middle.len() - top.len(), middle.len() as int)[i] == top[i]);
        assert(name.subrange(name.len() - middle.len(), name.len() as int)[in_middle]
            == middle[in_middle]);
    }
    assert(tail =~= top);
}

/// Anchoring and taking the relative labels undo each other: a partial name
/// of one label or more, anchored at an origin, lies strictly below the
/// origin, and its labels relative to the origin are the partial name.
pub proof fn lemma_relative_undoes_origin(partial: Seq<Seq<char>>, origin: Seq<Seq<char>>)
    requires
        partial.len() >= 1,
    ensures
        is_subdomain(partial + origin, origin),
        relative_labels(partial + origin, origin) == partial,
{
    let name = partial + origin;
    assert(name.subrange(name.len() - origin.len(), name.len() as int) =~= origin);
    assert(name.subrange(0, name.len() - origin.len()) =~= partial);
}

} // verus!
