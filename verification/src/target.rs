//! Turning a raw reference into a fetchable crawl target.

use vstd::prelude::*;
use crate::text::starts_with;

verus! {

/// The start of every address with the scheme `http`.
pub open spec fn http_prefix() -> Seq<char> {
    seq!['h', 't', 't', 'p', ':']
}

/// The start of every address with the scheme `https`.
pub open spec fn https_prefix() -> Seq<char> {
    seq!['h', 't', 't', 'p', 's', ':']
}

/// Whether an absolute address has the scheme `http` or `https`.
pub open spec fn is_web_address(address: Seq<char>) -> bool {
    http_prefix().is_prefix_of(address) || https_prefix().is_prefix_of(address)
}

/// What `url::Url::parse` makes of `raw`: the serialization of the parsed
/// address, or `None` where the parser reports an error.
pub uninterp spec fn parsed_url(raw: Seq<char>) -> Option<Seq<char>>;

/// What `url::Url::join` makes of `raw` against the address whose
/// serialization is `base`: the serialization of the joined address, or
/// `None` where `base` does not parse or the join reports an error.
pub uninterp spec fn joined_url(base: Seq<char>, raw: Seq<char>) -> Option<Seq<char>>;

/// The characters of an optional string.
pub open spec fn text_of(value: Option<String>) -> Option<Seq<char>> {
    match value {
        Some(s) => Some(s@),
        None => None,
    }
}

/// Calls `url::Url::parse` on `raw` and hands back the serialization of the
/// address it returns, `None` on any parse error. The contract only names
/// that result: the same input always parses to the same address.
#[verifier::external_body]
pub(crate) fn parse_url(raw: &str) -> (parsed: Option<String>)
    ensures
        text_of(parsed) == parsed_url(raw@),
{
    match url::Url::parse(raw) {
        Ok(address) => Some(String::from(address)),
        Err(_) => None,
    }
}

/// Parses `base` with `url::Url::parse` and calls `url::Url::join` on it with
/// `raw`, handing back the serialization of the joined address, `None` where
/// either step reports an error. The contract only names that result.
#[verifier::external_body]
fn join_url(base: &str, raw: &str) -> (joined: Option<String>)
    ensures
        text_of(joined) == joined_url(base@, raw@),
{
    match url::Url::parse(base) {
        Ok(address) => match address.join(raw) {
            Ok(target) => Some(String::from(target)),
            Err(_) => None,
        },
        Err(_) => None,
    }
}

/// An absolute address whose scheme is `http` or `https`. A target that
/// `resolve` makes holds the address as the parser serialized it; the type
/// itself vouches for the scheme alone.
#[derive(Debug)]
pub struct CrawlTarget {
    address: String,
}

impl View for CrawlTarget {
    type V = Seq<char>;

    closed spec fn view(&self) -> Seq<char> {
        self.address@
    }
}

impl CrawlTarget {
    /// Every target is a web address.
    #[verifier::type_invariant]
    pub closed spec fn is_valid(self) -> bool {
        is_web_address(self.address@)
    }

    /// The target's address.
    pub fn as_str(&self) -> (address: &str)
        ensures
            address@ == self@,
            is_web_address(self@),
    {
        proof {
            use_type_invariant(self);
        }
        self.address.as_str()
    }

    /// The target's address, owned.
    pub fn into_string(self) -> (address: String)
        ensures
            address@ == self@,
            is_web_address(self@),
    {
        proof {
            use_type_invariant(&self);
        }
        self.address
    }

    /// Makes a target of an absolute address where its scheme is `http` or
    /// `https`; hands the address back where it is not.
    pub fn from_address(address: String) -> (made: Result<CrawlTarget, String>)
        ensures
            match made {
                Ok(target) => is_web_address(address@) && target@ == address@,
                Err(rejected) => !is_web_address(address@) && rejected@ == address@,
            },
    {
        if has_web_scheme(address.as_str()) {
            Ok(CrawlTarget { address })
        } else {
            Err(address)
        }
    }

    /// A copy of the target.
    pub fn duplicate(&self) -> (copy: CrawlTarget)
        ensures
            copy@ == self@,
    {
        proof {
            use_type_invariant(self);
        }
        CrawlTarget { address: self.address.clone() }
    }
}

/// Why a reference cannot become a crawl target.
#[derive(Clone, Copy, Debug, PartialEq, Eq, Structural)]
pub enum Unresolvable {
    /// The reference is an absolute address with a scheme other than `http`
    /// and `https`.
    WrongScheme,
    /// The reference is no absolute address, and there is no base against
    /// which it resolves.
    RelativeWithoutBase,
}

/// How a raw reference was classified.
#[derive(Debug)]
pub enum Resolution {
    /// The reference resolves to this target.
    Target(CrawlTarget),
    /// The reference is skipped, for this reason.
    Unresolvable(Unresolvable),
}

/// A classification as a plain value.
pub enum ResolutionView {
    Target(Seq<char>),
    Unresolvable(Unresolvable),
}

impl View for Resolution {
    type V = ResolutionView;

    open spec fn view(&self) -> ResolutionView {
        match *self {
            Resolution::Target(target) => ResolutionView::Target(target@),
            Resolution::Unresolvable(reason) => ResolutionView::Unresolvable(reason),
        }
    }
}

/// The absolute address that `raw` stands for: what it parses to by itself
/// or, failing that, what joining it to `base` gives.
pub open spec fn absolute_form(raw: Seq<char>, base: Option<Seq<char>>) -> Option<Seq<char>> {
    match parsed_url(raw) {
        Some(address) => Some(address),
        None => match base {
            Some(b) => joined_url(b, raw),
            None => None,
        },
    }
}

/// The classification of a reference whose absolute form is `absolute`.
pub open spec fn classification(absolute: Option<Seq<char>>) -> ResolutionView {
    match absolute {
        Some(address) => if is_web_address(address) {
            ResolutionView::Target(address)
        } else {
            ResolutionView::Unresolvable(Unresolvable::WrongScheme)
        },
        None => ResolutionView::Unresolvable(Unresolvable::RelativeWithoutBase),
    }
}

/// The address of an optional base target.
pub open spec fn base_address(base: Option<&CrawlTarget>) -> Option<Seq<char>> {
    match base {
        Some(target) => Some(target@),
        None => None,
    }
}

/// Whether `address` has the scheme `http` or `https`.
pub fn has_web_scheme(address: &str) -> (web: bool)
    ensures
        web == is_web_address(address@),
{
    proof {
        reveal_strlit("http:");
        reveal_strlit("https:");
        assert("http:"@ =~= http_prefix());
        assert("https:"@ =~= https_prefix());
    }
    starts_with(address, "http:") || starts_with(address, "https:")
}

/// Classifies a reference by its absolute form: a target where that form is
/// a web address, the wrong scheme where it is another address, and
/// unresolvable where there is none.
pub fn classify(absolute: Option<String>) -> (outcome: Resolution)
    ensures
        outcome@ == classification(text_of(absolute)),
{
    match absolute {
        Some(address) => match CrawlTarget::from_address(address) {
            Ok(target) => Resolution::Target(target),
            Err(_) => Resolution::Unresolvable(Unresolvable::WrongScheme),
        },
        None => Resolution::Unresolvable(Unresolvable::RelativeWithoutBase),
    }
}

/// Resolves a raw reference, against `base` where it is not absolute by
/// itself, and classifies the outcome. Never fails: malformed input is
/// classified as unresolvable.
pub fn resolve(raw: &str, base: Option<&CrawlTarget>) -> (outcome: Resolution)
    ensures
        outcome@ == classification(absolute_form(raw@, base_address(base))),
        outcome matches Resolution::Target(target) ==> is_web_address(target@),
        base.is_none() && parsed_url(raw@).is_none() ==> outcome@
            == ResolutionView::Unresolvable(Unresolvable::RelativeWithoutBase),
{
    let parsed = parse_url(raw);
    let absolute = match parsed {
        Some(address) => Some(address),
        None => match base {
            Some(target) => join_url(target.as_str(), raw),
            None => None,
        },
    };
    classify(absolute)
}

} // verus!
