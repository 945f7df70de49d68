//! Edge labels: the generic child relation, and relation types derived from
//! grammatical field names by upper-snake-case normalization.

use vstd::prelude::*;

verus! {

/// What a field name normalizes to: the upper snake case of the token
/// (`"typeParameters"` becomes `"TYPE_PARAMETERS"`). The conversion is a
/// pure function of the characters; its word-boundary rules are the outside
/// crate's and are not restated here.
pub uninterp spec fn upper_snake_of(s: Seq<char>) -> Seq<char>;

/// Relies on convert_case's `Casing::to_case` with `Case::UpperSnake`:
/// a deterministic case conversion, a function of the input characters alone.
#[verifier::external_body]
pub fn normalize_field(s: &str) -> (r: String)
    ensures
        r@ == upper_snake_of(s@),
{
    convert_case::Casing::to_case(&s, convert_case::Case::UpperSnake)
}

/// The label of one created edge. Every parent-child pair gets a `Child`
/// edge; a pair whose slot carries a field name additionally gets a
/// `Role` edge typed by the normalized field name.
pub enum EdgeLabel {
    Child,
    Role(String),
}

/// The mathematical image of an edge label.
#[verifier::ext_equal]
pub ghost enum LabelView {
    Child,
    Role(Seq<char>),
}

impl View for EdgeLabel {
    type V = LabelView;

    open spec fn view(&self) -> LabelView {
        match self {
            EdgeLabel::Child => LabelView::Child,
            EdgeLabel::Role(s) => LabelView::Role(s@),
        }
    }
}

} // verus!
