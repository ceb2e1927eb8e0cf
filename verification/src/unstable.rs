//! The logic of the `unstable` attribute: the feature that guards an item, and
//! the documentation that marks it.
use vstd::prelude::*;
use vstd::string::StringExecFns;
use crate::derive::decoded;
use crate::tokens::decode_literals;

verus! {

/// An argument of the attribute: a literal (`"name"`) or a name-value pair
/// (`feature = "name"`), each with the index of its literal in the table of
/// literals; a bare name (`name`), by the last identifier of its path; or
/// anything else.
pub enum MetaArg {
    Lit { index: usize },
    NameValue { index: usize },
    Path { ident: String },
    Other,
}

/// The feature name that an argument gives: the string value of its literal,
/// where that is a string literal, or the name of a bare name.
pub open spec fn arg_str(arg: MetaArg, lits: Seq<Option<String>>) -> Option<Seq<char>> {
    let index = match arg {
        MetaArg::Lit { index } => Some(index),
        MetaArg::NameValue { index } => Some(index),
        _ => None,
    };
    match arg {
        MetaArg::Path { ident } => Some(ident@),
        _ => match index {
            Some(k) => if k < lits.len() {
                match lits[k as int] {
                    Some(v) => Some(v@),
                    None => None,
                }
            } else {
                None
            },
            None => None,
        },
    }
}

/// The first feature name among the arguments from position `i` on.
pub open spec fn first_str(args: Seq<MetaArg>, lits: Seq<Option<String>>, i: int) -> Option<Seq<char>>
    decreases args.len() - i,
{
    if i < 0 || i >= args.len() {
        None
    } else {
        match arg_str(args[i], lits) {
            Some(v) => Some(v),
            None => first_str(args, lits, i + 1),
        }
    }
}

/// The feature that guards an item: `unstable-` and the first feature name
/// among the arguments, or `unstable` where there is none.
pub open spec fn spec_feature_name(args: Seq<MetaArg>, lits: Seq<Option<String>>) -> Seq<char> {
    match first_str(args, lits, 0) {
        Some(v) => "unstable-"@ + v,
        None => "unstable"@,
    }
}

/// The documentation line prepended to a public item marked unstable.
pub open spec fn badge_text() -> Seq<char> {
    "<span class='stab unstable'>Unstable</span>"@
}

/// The documentation appended to a public item marked unstable.
pub open spec fn notice_text(feature: Seq<char>) -> Seq<char> {
    "# This feature is unstable and guarded by the `"@ + feature
        + "` feature flag.\nPlease be advised that this feature might change without further noticeand no guarantees about its stability can be made."@
}

/// The feature that guards an item.
pub fn feature_name(args: &Vec<MetaArg>, lits: &Vec<Option<String>>) -> (res: String)
    ensures
        res@ == spec_feature_name(args@, lits@),
{
    let mut i: usize = 0;
    while i < args.len()
        invariant
            i <= args.len(),
            first_str(args@, lits@, 0) == first_str(args@, lits@, i as int),
        decreases args.len() - i,
    {
        let index = match &args[i] {
            MetaArg::Lit { index } => Some(*index),
            MetaArg::NameValue { index } => Some(*index),
            MetaArg::Path { ident } => {
                let mut name = String::from_str("unstable-");
                name.append(ident.as_str());
                return name;
            },
            MetaArg::Other => None,
        };
        if let Some(k) = index {
            if k < lits.len() {
                if let Some(v) = &lits[k] {
                    let mut name = String::from_str("unstable-");
                    name.append(v.as_str());
                    return name;
                }
            }
        }
        i = i + 1;
    }
    String::from_str("unstable")
}

/// What the attribute does to an item: a function is made `unsafe`; a public
/// item is emitted twice, public where the feature is enabled and `pub(crate)`
/// where it is not, and documented as unstable. Any other item is emitted as it
/// is (but for the `unsafe`).
pub struct UnstablePlan {
    pub make_unsafe: bool,
    pub gate: Option<UnstableGate>,
}

/// The feature that guards a public item, and its documentation.
pub struct UnstableGate {
    pub feature: String,
    pub badge: String,
    pub notice: String,
}

/// The plan for an item with the given arguments; `literals` holds the source
/// texts of the arguments' literals.
pub fn unstable(args: &Vec<MetaArg>, literals: &Vec<String>, is_fn: bool, is_public: bool) -> (res: UnstablePlan)
    ensures
        res.make_unsafe == is_fn,
        res.gate is Some <==> is_public,
        exists|lits: Seq<Option<String>>| {
            &&& decoded(literals@, lits)
            &&& res.gate matches Some(g) ==> {
                &&& g.feature@ == spec_feature_name(args@, lits)
                &&& g.badge@ == badge_text()
                &&& g.notice@ == notice_text(spec_feature_name(args@, lits))
            }
        },
{
    let lits = decode_literals(literals);
    assert(decoded(literals@, lits@));
    let feature = feature_name(args, &lits);
    let gate = if is_public {
        let badge = String::from_str("<span class='stab unstable'>Unstable</span>");
        let mut notice = String::from_str("# This feature is unstable and guarded by the `");
        notice.append(feature.as_str());
        notice.append("` feature flag.\nPlease be advised that this feature might change without further noticeand no guarantees about its stability can be made.");
        Some(UnstableGate { feature, badge, notice })
    } else {
        None
    };
    UnstablePlan { make_unsafe: is_fn, gate }
}

} // verus!
