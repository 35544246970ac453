//! Languages of records, and bags that combine the languages seen for one entity.
use vstd::prelude::*;

verus! {

/// The error of parsing a language. Parsing never fails; the type exists for
/// the `FromStr` signature.
#[derive(Debug, PartialEq, Eq, Clone, Copy, Structural)]
pub enum LanguageError {
    ParseError,
}

/// A language representation.
#[derive(Debug, Hash, Clone)]
pub enum Language {
    Unknown,
    English,
    Other,
    Open(String),
}

/// Two languages are the same: the same variant, and the same text for `Open`.
pub open spec fn same_language(a: Language, b: Language) -> bool {
    match (a, b) {
        (Language::Unknown, Language::Unknown) => true,
        (Language::English, Language::English) => true,
        (Language::Other, Language::Other) => true,
        (Language::Open(x), Language::Open(y)) => x@ == y@,
        _ => false,
    }
}

impl PartialEq for Language {
    fn eq(&self, other: &Language) -> (r: bool)
        ensures
            r == same_language(*self, *other),
    {
        match (self, other) {
            (Language::Unknown, Language::Unknown) => true,
            (Language::English, Language::English) => true,
            (Language::Other, Language::Other) => true,
            (Language::Open(x), Language::Open(y)) => x.eq(y),
            _ => false,
        }
    }
}

impl vstd::std_specs::cmp::PartialEqSpecImpl for Language {
    open spec fn obeys_eq_spec() -> bool {
        true
    }

    open spec fn eq_spec(&self, other: &Language) -> bool {
        same_language(*self, *other)
    }
}

impl Eq for Language {

}

impl Default for Language {
    fn default() -> (r: Language)
        ensures
            r is Unknown,
    {
        Language::Unknown
    }
}

/// The language that merging `a` with `b` gives: an unknown side yields the
/// other, two equal languages yield that language, and a disagreement is unknown.
pub open spec fn merged(a: Language, b: Language) -> Language {
    if a is Unknown {
        b
    } else if b is Unknown {
        a
    } else if same_language(a, b) {
        b
    } else {
        Language::Unknown
    }
}

/// The bit of a language in a bag's mask.
pub open spec fn mask_bit(l: Language) -> u32 {
    match l {
        Language::Unknown => 1,
        Language::English => 2,
        Language::Other => 4,
        Language::Open(_) => 0x8000_0000,
    }
}

/// `p` occurs in `s` as a contiguous run.
pub open spec fn has_run(s: Seq<char>, p: Seq<char>) -> bool {
    exists|i: int| 0 <= i <= s.len() - p.len() && #[trigger] s.subrange(i, i + p.len()) == p
}

/// The language that a trimmed, lower-cased description names.
pub open spec fn classify(sg: Seq<char>) -> Language {
    if has_run(sg, seq!['e', 'n', 'g']) || has_run(sg, seq!['a', 'n', 'g']) || has_run(
        sg,
        seq!['i', 'n', 'g', 'l'],
    ) {
        Language::English
    } else if sg == seq!['x', 'x', 'x'] || has_run(sg, seq!['f', 'e', 'm']) || has_run(
        sg,
        seq!['m', 'a', 'l', 'e'],
    ) {
        Language::Unknown
    } else {
        Language::Other
    }
}

/// The text with leading and trailing whitespace removed, as `str::trim` gives it.
pub uninterp spec fn trim_of(s: Seq<char>) -> Seq<char>;

/// The lower-case form of a text, as `str::to_lowercase` gives it.
pub uninterp spec fn lower_of(s: Seq<char>) -> Seq<char>;

/// Relies on `str::trim`: the result depends on the text alone.
#[verifier::external_body]
fn trimmed(s: &str) -> (r: &str)
    ensures
        r@ == trim_of(s@),
{
    s.trim()
}

/// Relies on `str::to_lowercase`: the result depends on the text alone.
#[verifier::external_body]
fn lowercase(s: &str) -> (r: String)
    ensures
        r@ == lower_of(s@),
{
    s.to_lowercase()
}

/// Relies on `str::contains` with a `&str` pattern, which is true when the
/// pattern matches a sub-slice of the text.
#[verifier::external_body]
fn contains_run(s: &str, p: &str) -> (r: bool)
    ensures
        r == has_run(s@, p@),
{
    s.contains(p)
}

/// Relies on `str`'s `==`, which compares the texts.
#[verifier::external_body]
fn same_text(a: &str, b: &str) -> (r: bool)
    ensures
        r == (a@ == b@),
{
    a == b
}

/// The name of a language: its text for `Open`, else a fixed lower-case word.
pub open spec fn language_name(l: Language) -> Seq<char> {
    match l {
        Language::Unknown => seq!['u', 'n', 'k', 'n', 'o', 'w', 'n'],
        Language::English => seq!['e', 'n', 'g', 'l', 'i', 's', 'h'],
        Language::Other => seq!['o', 't', 'h', 'e', 'r'],
        Language::Open(s) => s@,
    }
}

impl Language {
    /// Classify a description that is already trimmed and lower-cased.
    pub fn from_folded(sg: &str) -> (r: Language)
        ensures
            r == classify(sg@),
    {
        proof {
            reveal_strlit("eng");
            reveal_strlit("ang");
            reveal_strlit("ingl");
            reveal_strlit("xxx");
            reveal_strlit("fem");
            reveal_strlit("male");
            assert("eng"@ =~= seq!['e', 'n', 'g']);
            assert("ang"@ =~= seq!['a', 'n', 'g']);
            assert("ingl"@ =~= seq!['i', 'n', 'g', 'l']);
            assert("xxx"@ =~= seq!['x', 'x', 'x']);
            assert("fem"@ =~= seq!['f', 'e', 'm']);
            assert("male"@ =~= seq!['m', 'a', 'l', 'e']);
        }
        if contains_run(sg, "eng") || contains_run(sg, "ang") || contains_run(sg, "ingl") {
            return Language::English;
        }
        if same_text(sg, "xxx") || contains_run(sg, "fem") || contains_run(sg, "male") {
            return Language::Unknown;
        }
        Language::Other
    }

    /// Parse a language description: trim it, lower-case it and classify it.
    pub fn parse(s: &str) -> (r: Language)
        ensures
            r == classify(lower_of(trim_of(s@))),
    {
        let sg = lowercase(trimmed(s));
        Language::from_folded(sg.as_str())
    }

    /// A copy of the language.
    pub(crate) fn duplicate(&self) -> (r: Language)
        ensures
            r == *self,
    {
        match self {
            Language::Unknown => Language::Unknown,
            Language::English => Language::English,
            Language::Other => Language::Other,
            Language::Open(s) => Language::Open(s.clone()),
        }
    }

    /// Merge a language with another. If the two disagree, the result is unknown.
    pub fn merge(&self, other: &Language) -> (r: Language)
        ensures
            r == merged(*self, *other),
    {
        match (self, other) {
            (Language::Unknown, g) => g.duplicate(),
            (g, Language::Unknown) => g.duplicate(),
            (g1, g2) => {
                if g1 == g2 {
                    g2.duplicate()
                } else {
                    Language::Unknown
                }
            },
        }
    }

    /// The bit of this language in a bag's mask.
    fn mask_val(&self) -> (m: u32)
        ensures
            m == mask_bit(*self),
    {
        match self {
            Language::Unknown => 1,
            Language::English => 2,
            Language::Other => 4,
            Language::Open(_) => 0x8000_0000,
        }
    }

    /// The name of the language.
    pub fn to_string(&self) -> (r: String)
        ensures
            r@ == language_name(*self),
    {
        proof {
            reveal_strlit("unknown");
            reveal_strlit("english");
            reveal_strlit("other");
            assert("unknown"@ =~= seq!['u', 'n', 'k', 'n', 'o', 'w', 'n']);
            assert("english"@ =~= seq!['e', 'n', 'g', 'l', 'i', 's', 'h']);
            assert("other"@ =~= seq!['o', 't', 'h', 'e', 'r']);
        }
        match self {
            Language::Unknown => "unknown".to_owned(),
            Language::English => "english".to_owned(),
            Language::Other => "other".to_owned(),
            Language::Open(s) => s.clone(),
        }
    }
}

impl<'a> From<&'a str> for Language {
    fn from(s: &'a str) -> (r: Language)
        ensures
            r == classify(lower_of(trim_of(s@))),
    {
        Language::parse(s)
    }
}

impl<'a> vstd::std_specs::convert::FromSpecImpl<&'a str> for Language {
    open spec fn obeys_from_spec() -> bool {
        true
    }

    open spec fn from_spec(s: &'a str) -> Language {
        classify(lower_of(trim_of(s@)))
    }
}

impl From<String> for Language {
    fn from(s: String) -> (r: Language)
        ensures
            r == classify(lower_of(trim_of(s@))),
    {
        Language::parse(s.as_str())
    }
}

impl vstd::std_specs::convert::FromSpecImpl<String> for Language {
    open spec fn obeys_from_spec() -> bool {
        true
    }

    open spec fn from_spec(s: String) -> Language {
        classify(lower_of(trim_of(s@)))
    }
}

impl std::str::FromStr for Language {
    type Err = LanguageError;

    fn from_str(s: &str) -> Result<Language, LanguageError> {
        Ok(Language::parse(s))
    }
}

/// The abstract content of a bag: how many languages were added, the mask of
/// their bits, and the language they resolve to.
pub struct BagState {
    pub size: nat,
    pub mask: u32,
    pub resolved: Language,
}

/// The bag that merging bag `b` into bag `a` gives.
pub open spec fn merged_bags(a: BagState, b: BagState) -> BagState {
    BagState { size: a.size + b.size, mask: a.mask | b.mask, resolved: merged(a.resolved, b.resolved) }
}

/// The bag holding nothing.
pub open spec fn empty_bag() -> BagState {
    BagState { size: 0, mask: 0, resolved: Language::Unknown }
}

/// A collection of languages.
#[derive(Debug)]
pub struct LanguageBag {
    size: usize,
    mask: u32,
    resolved: Language,
}

impl View for LanguageBag {
    type V = BagState;

    closed spec fn view(&self) -> BagState {
        BagState { size: self.size as nat, mask: self.mask, resolved: self.resolved }
    }
}

impl Default for LanguageBag {
    fn default() -> (r: LanguageBag)
        ensures
            r@ == empty_bag(),
    {
        LanguageBag { size: 0, mask: 0, resolved: Language::Unknown }
    }
}

impl LanguageBag {
    /// Add a language to this bag.
    pub fn add(&mut self, language: Language)
        requires
            old(self)@.size < usize::MAX,
        ensures
            final(self)@ == (BagState {
                size: old(self)@.size + 1,
                mask: old(self)@.mask | mask_bit(language),
                resolved: merged(old(self)@.resolved, language),
            }),
    {
        self.size = self.size + 1;
        self.mask = self.mask | language.mask_val();
        self.resolved = self.resolved.merge(&language);
    }

    /// Merge another language bag into this one.
    pub fn merge_from(&mut self, bag: &LanguageBag)
        requires
            old(self)@.size + bag@.size <= usize::MAX,
        ensures
            final(self)@ == merged_bags(old(self)@, bag@),
    {
        self.size = self.size + bag.size;
        self.mask = self.mask | bag.mask;
        self.resolved = self.resolved.merge(&bag.resolved);
    }

    /// The number of language entries recorded in this bag.
    pub fn len(&self) -> (n: usize)
        ensures
            n == self@.size,
    {
        self.size
    }

    /// Whether the bag is empty.
    pub fn is_empty(&self) -> (r: bool)
        ensures
            r == (self@.size == 0),
    {
        self.size == 0
    }

    /// The language, or `None` if no languages were added.
    pub fn maybe_language(&self) -> (r: Option<&Language>)
        ensures
            self@.size == 0 ==> r is None,
            self@.size != 0 ==> r == Some(&self@.resolved),
    {
        if self.is_empty() {
            None
        } else {
            Some(&self.resolved)
        }
    }

    /// A copy of the bag.
    pub(crate) fn duplicate(&self) -> (r: LanguageBag)
        ensures
            r@ == self@,
    {
        LanguageBag { size: self.size, mask: self.mask, resolved: self.resolved.duplicate() }
    }

    /// The language, which is unknown if no languages were added.
    pub fn to_language(&self) -> (r: &Language)
        ensures
            *r == self@.resolved,
    {
        &self.resolved
    }
}

} // verus!
