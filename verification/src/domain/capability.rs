//! What an agent can do, and what a task asks for.

use crate::text::{
    ascii_lower, eq_ignoring_case, joined, same_ignoring_case, trim_chars, trimmed,
};
use vstd::prelude::*;
use vstd::string::*;

verus! {

/// A named capability.
///
/// The fixed kinds cover the common roles; [`Capability::Custom`] is for skills
/// of one deployment, and is matched by name.
#[derive(Debug, PartialEq, Eq)]
pub enum Capability {
    /// General code changes in an unfamiliar area.
    Coding,
    /// Writing and running tests.
    Testing,
    /// Reviewing another agent's changes.
    Reviewing,
    /// Splitting work into tasks and ordering them.
    Planning,
    /// Writing documentation.
    Documentation,
    /// Investigation and prototypes.
    Research,
    /// User interfaces.
    Frontend,
    /// Servers and APIs.
    Backend,
    /// Schemas, migrations and queries.
    Database,
    /// Builds, deployment and infrastructure.
    DevOps,
    /// Security review.
    Security,
    /// A person.
    Human,
    /// A skill of one deployment, matched by name.
    Custom(String),
}

/// What a [`Capability`] holds.
#[verifier::ext_equal]
pub enum CapabilityView {
    Coding,
    Testing,
    Reviewing,
    Planning,
    Documentation,
    Research,
    Frontend,
    Backend,
    Database,
    DevOps,
    Security,
    Human,
    Custom(Seq<char>),
}

impl View for Capability {
    type V = CapabilityView;

    open spec fn view(&self) -> CapabilityView {
        match self {
            Capability::Coding => CapabilityView::Coding,
            Capability::Testing => CapabilityView::Testing,
            Capability::Reviewing => CapabilityView::Reviewing,
            Capability::Planning => CapabilityView::Planning,
            Capability::Documentation => CapabilityView::Documentation,
            Capability::Research => CapabilityView::Research,
            Capability::Frontend => CapabilityView::Frontend,
            Capability::Backend => CapabilityView::Backend,
            Capability::Database => CapabilityView::Database,
            Capability::DevOps => CapabilityView::DevOps,
            Capability::Security => CapabilityView::Security,
            Capability::Human => CapabilityView::Human,
            Capability::Custom(x) => CapabilityView::Custom(x.deep_view()),
        }
    }
}

impl DeepView for Capability {
    type V = CapabilityView;

    open spec fn deep_view(&self) -> CapabilityView {
        self.view()
    }
}

impl Clone for Capability {
    fn clone(&self) -> (r: Self)
        ensures
            r@ == self@,
    {
        match self {
            Capability::Coding => Capability::Coding,
            Capability::Testing => Capability::Testing,
            Capability::Reviewing => Capability::Reviewing,
            Capability::Planning => Capability::Planning,
            Capability::Documentation => Capability::Documentation,
            Capability::Research => Capability::Research,
            Capability::Frontend => Capability::Frontend,
            Capability::Backend => Capability::Backend,
            Capability::Database => Capability::Database,
            Capability::DevOps => Capability::DevOps,
            Capability::Security => Capability::Security,
            Capability::Human => Capability::Human,
            Capability::Custom(x) => Capability::Custom(x.clone()),
        }
    }
}

/// What `have` satisfies: a person is needed for [`Capability::Human`] and only a
/// person will do; [`Capability::Coding`] stands in for everything else; custom
/// names are compared without surrounding whitespace and ASCII case; any other
/// capability satisfies its own kind.
pub open spec fn satisfies(have: CapabilityView, need: CapabilityView) -> bool {
    match (have, need) {
        (CapabilityView::Human, CapabilityView::Human) => true,
        (_, CapabilityView::Human) => false,
        (CapabilityView::Coding, _) => true,
        (CapabilityView::Custom(h), CapabilityView::Custom(n)) => same_ignoring_case(
            trimmed(h),
            trimmed(n),
        ),
        (CapabilityView::Custom(_), _) => false,
        (_, CapabilityView::Custom(_)) => false,
        (h, n) => h == n,
    }
}

/// The name of a capability as text: a custom one behind `custom:`, any other in
/// double quotes.
pub open spec fn capability_text(c: CapabilityView) -> Seq<char> {
    match c {
        CapabilityView::Coding => "\"coding\""@,
        CapabilityView::Testing => "\"testing\""@,
        CapabilityView::Reviewing => "\"reviewing\""@,
        CapabilityView::Planning => "\"planning\""@,
        CapabilityView::Documentation => "\"documentation\""@,
        CapabilityView::Research => "\"research\""@,
        CapabilityView::Frontend => "\"frontend\""@,
        CapabilityView::Backend => "\"backend\""@,
        CapabilityView::Database => "\"database\""@,
        CapabilityView::DevOps => "\"dev_ops\""@,
        CapabilityView::Security => "\"security\""@,
        CapabilityView::Human => "\"human\""@,
        CapabilityView::Custom(name) => "custom:"@ + name,
    }
}

impl Capability {
    /// Whether an agent with this capability can take a task that requires
    /// `required`.
    pub fn matches(&self, required: &Capability) -> (r: bool)
        ensures
            r == satisfies(self@, required@),
    {
        match (self, required) {
            (Capability::Human, Capability::Human) => true,
            (_, Capability::Human) => false,
            (Capability::Coding, _) => true,
            (Capability::Custom(have), Capability::Custom(need)) => eq_ignoring_case(
                &trim_chars(have.as_str()),
                &trim_chars(need.as_str()),
            ),
            (Capability::Testing, Capability::Testing) => true,
            (Capability::Reviewing, Capability::Reviewing) => true,
            (Capability::Planning, Capability::Planning) => true,
            (Capability::Documentation, Capability::Documentation) => true,
            (Capability::Research, Capability::Research) => true,
            (Capability::Frontend, Capability::Frontend) => true,
            (Capability::Backend, Capability::Backend) => true,
            (Capability::Database, Capability::Database) => true,
            (Capability::DevOps, Capability::DevOps) => true,
            (Capability::Security, Capability::Security) => true,
            _ => false,
        }
    }

    /// The capability as text.
    pub fn to_string(&self) -> (r: String)
        ensures
            r@ == capability_text(self@),
    {
        match self {
            Capability::Coding => "\"coding\"".to_owned(),
            Capability::Testing => "\"testing\"".to_owned(),
            Capability::Reviewing => "\"reviewing\"".to_owned(),
            Capability::Planning => "\"planning\"".to_owned(),
            Capability::Documentation => "\"documentation\"".to_owned(),
            Capability::Research => "\"research\"".to_owned(),
            Capability::Frontend => "\"frontend\"".to_owned(),
            Capability::Backend => "\"backend\"".to_owned(),
            Capability::Database => "\"database\"".to_owned(),
            Capability::DevOps => "\"dev_ops\"".to_owned(),
            Capability::Security => "\"security\"".to_owned(),
            Capability::Human => "\"human\"".to_owned(),
            Capability::Custom(name) => joined("custom:", name.as_str()),
        }
    }
}

/// Every capability satisfies a requirement for itself.
pub proof fn law_capability_satisfies_itself(c: CapabilityView)
    ensures
        satisfies(c, c),
{
}

/// A general coding agent can be given any task that does not need a person.
pub proof fn law_coding_satisfies_every_machine_requirement(need: CapabilityView)
    ensures
        satisfies(CapabilityView::Coding, need) <==> need != CapabilityView::Human,
{
}

/// Only a person satisfies a requirement for a person.
pub proof fn law_only_a_human_satisfies_human(have: CapabilityView)
    ensures
        satisfies(have, CapabilityView::Human) <==> have == CapabilityView::Human,
{
}

/// A specialist satisfies its own requirement and no other; what is named freely is
/// satisfied under its name alone, and satisfies nothing else.
pub proof fn law_a_specialist_satisfies_only_its_own(have: CapabilityView, need: CapabilityView)
    requires
        have != CapabilityView::Coding,
    ensures
        satisfies(have, need) && have !is Custom ==> have == need,
        satisfies(have, need) ==> (have is Custom <==> need is Custom),
        have == need ==> satisfies(have, need),
{
    law_capability_satisfies_itself(have);
}

/// Free names are compared without their blank ends and without the case of ASCII
/// letters, so that it makes no difference which of the two is asked for.
pub proof fn law_free_names_are_compared_loosely(have: Seq<char>, need: Seq<char>)
    ensures
        satisfies(CapabilityView::Custom(have), CapabilityView::Custom(need)) <==> {
            &&& trimmed(have).len() == trimmed(need).len()
            &&& forall|i: int|
                0 <= i < trimmed(have).len() ==> #[trigger] ascii_lower(trimmed(have)[i])
                    == ascii_lower(trimmed(need)[i])
        },
        satisfies(CapabilityView::Custom(have), CapabilityView::Custom(need)) == satisfies(
            CapabilityView::Custom(need),
            CapabilityView::Custom(have),
        ),
{
    let (a, b) = (trimmed(have), trimmed(need));
    if same_ignoring_case(a, b) {
        assert forall|i: int| 0 <= i < b.len() implies #[trigger] ascii_lower(b[i])
            == ascii_lower(a[i]) by {
            assert(ascii_lower(a[i]) == ascii_lower(b[i]));
        }
    }
    if same_ignoring_case(b, a) {
        assert forall|i: int| 0 <= i < a.len() implies #[trigger] ascii_lower(a[i])
            == ascii_lower(b[i]) by {
            assert(ascii_lower(b[i]) == ascii_lower(a[i]));
        }
    }
}

} // verus!
